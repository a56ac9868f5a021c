//! The variables that inlining adds are all different.
//!
//! Ids are counted up, so what one call adds lies between the count before it and
//! the count after it. Everything here follows such ranges through the pass.

use crate::hir::{FuncId, LocalId};
use crate::inline::calls::{
    head_of, inline_children, inline_expr, inline_first, inline_head, inline_stmt,
    inline_stmts, noted, searched, without_return,
};
use crate::inline::candidate::{bound_by, bound_by_cases, bound_ids, is_trivial};
use crate::inline::expand::{
    argument_let, argument_lets, args_of, bind_args, bind_fresh, call_map, callee_of, find_method,
    full_call, mapped_lets, method_expr, pairs, rename_fresh, simple_call, void_stmts, CalleeView,
    CandidatesView,
};
use crate::inline::scan::param_ids;
use crate::model::{CaseView, ExprView, FunctionView, ParamView, StmtView};
use crate::rewrite::{rebound, rewrite_cases, rewrite_stmt, rewrite_stmts, Rewrite};
use crate::shape::member_of_local;
use crate::walk::{children, lemma_children_smaller};
use vstd::prelude::*;

verus! {

// ---------------------------------------------------------------------------
// Lists of ids
// ---------------------------------------------------------------------------

/// Whether all ids are below the bound.
pub open spec fn below(ids: Seq<LocalId>, lo: nat) -> bool {
    forall|i: int| 0 <= i < ids.len() ==> (#[trigger] ids[i]) < lo
}

/// Whether the ids from `lo` on lie in the range from `n` to `next`, and each of them
/// stands in the list once.
pub open spec fn tidy(ids: Seq<LocalId>, lo: nat, n: nat, next: nat) -> bool {
    &&& forall|i: int| 0 <= i < ids.len() ==> (#[trigger] ids[i]) < lo || n <= ids[i] < next
    &&& forall|i: int, j: int|
        0 <= i < j < ids.len() && lo <= ids[i] ==> #[trigger] ids[i] != #[trigger] ids[j]
}

proof fn lemma_below_parts(a: Seq<LocalId>, b: Seq<LocalId>, lo: nat)
    requires
        below(a + b, lo),
    ensures
        below(a, lo),
        below(b, lo),
{
    assert forall|i: int| 0 <= i < a.len() implies (#[trigger] a[i]) < lo by {
        assert((a + b)[i] == a[i]);
    }
    assert forall|i: int| 0 <= i < b.len() implies (#[trigger] b[i]) < lo by {
        assert((a + b)[a.len() + i] == b[i]);
    }
}

pub proof fn lemma_below_tidy(ids: Seq<LocalId>, lo: nat, n: nat, next: nat)
    requires
        below(ids, lo),
    ensures
        tidy(ids, lo, n, next),
{
}

proof fn lemma_tidy_wider(ids: Seq<LocalId>, lo: nat, n: nat, k: nat, l: nat, next: nat)
    requires
        tidy(ids, lo, k, l),
        n <= k,
        l <= next,
    ensures
        tidy(ids, lo, n, next),
{
}

/// Lists over ranges that follow each other can be put together.
pub proof fn lemma_tidy_concat(
    a: Seq<LocalId>,
    b: Seq<LocalId>,
    lo: nat,
    n: nat,
    k: nat,
    next: nat,
)
    requires
        tidy(a, lo, n, k),
        tidy(b, lo, k, next),
        n <= k <= next,
    ensures
        tidy(a + b, lo, n, next),
{
    let all = a + b;
    assert forall|i: int| 0 <= i < all.len() implies (#[trigger] all[i]) < lo || n <= all[i]
        < next by {
        if i < a.len() {
            assert(all[i] == a[i]);
        } else {
            assert(all[i] == b[i - a.len()]);
        }
    }
    assert forall|i: int, j: int| 0 <= i < j < all.len() && lo <= all[i] implies #[trigger] all[i]
        != #[trigger] all[j] by {
        if j < a.len() {
            assert(all[i] == a[i] && all[j] == a[j]);
        } else if i < a.len() {
            assert(all[i] == a[i] && all[j] == b[j - a.len()]);
        } else {
            assert(all[i] == b[i - a.len()] && all[j] == b[j - a.len()]);
        }
    }
}

/// A list of old ids behind one that is tidy.
proof fn lemma_tidy_old(a: Seq<LocalId>, b: Seq<LocalId>, lo: nat, n: nat, next: nat)
    requires
        tidy(a, lo, n, next),
        below(b, lo),
        n <= next,
    ensures
        tidy(a + b, lo, n, next),
{
    lemma_below_tidy(b, lo, next, next);
    lemma_tidy_concat(a, b, lo, n, next, next);
}

// ---------------------------------------------------------------------------
// What statements bind
// ---------------------------------------------------------------------------

proof fn lemma_bound_push(v: Seq<StmtView>, s: StmtView)
    ensures
        bound_ids(v.push(s)) == bound_ids(v) + bound_by(s),
{
    assert(v.push(s).drop_last() =~= v);
    assert(v.push(s).last() == s);
}

proof fn lemma_bound_concat(a: Seq<StmtView>, b: Seq<StmtView>)
    ensures
        bound_ids(a + b) == bound_ids(a) + bound_ids(b),
    decreases b.len(),
{
    if b.len() == 0 {
        assert(a + b =~= a);
        assert(bound_ids(a) + bound_ids(b) =~= bound_ids(a));
    } else {
        let front = b.drop_last();
        lemma_bound_concat(a, front);
        assert((a + b).drop_last() =~= a + front);
        assert((a + b).last() == b.last());
        assert(bound_ids(a) + (bound_ids(front) + bound_by(b.last())) =~= bound_ids(a) + bound_ids(
            front,
        ) + bound_by(b.last()));
    }
}

proof fn lemma_bound_one(s: StmtView)
    ensures
        bound_ids(seq![s]) == bound_by(s),
{
    assert(seq![s] =~= Seq::<StmtView>::empty().push(s));
    lemma_bound_push(Seq::empty(), s);
    assert(Seq::<LocalId>::empty() + bound_by(s) =~= bound_by(s));
}

/// What each of the statements binds is old where what they bind is.
proof fn lemma_below_each(v: Seq<StmtView>, lo: nat, i: int)
    requires
        below(bound_ids(v), lo),
        0 <= i < v.len(),
    ensures
        below(bound_by(v[i]), lo),
    decreases v.len(),
{
    let front = v.drop_last();
    lemma_below_parts(bound_ids(front), bound_by(v.last()), lo);
    if i < front.len() {
        lemma_below_each(front, lo, i);
        assert(front[i] == v[i]);
    } else {
        assert(v[i] == v.last());
    }
}

/// The ids after a rewrite of what binds them.
spec fn moved(ids: Seq<LocalId>, r: Rewrite) -> Seq<LocalId> {
    ids.map_values(|x: LocalId| rebound(x, r))
}

proof fn lemma_moved_concat(a: Seq<LocalId>, b: Seq<LocalId>, r: Rewrite)
    ensures
        moved(a + b, r) == moved(a, r) + moved(b, r),
{
    assert(moved(a + b, r) =~= moved(a, r) + moved(b, r));
}

proof fn lemma_moved_same(ids: Seq<LocalId>, r: Rewrite)
    requires
        !(r is Locals),
    ensures
        moved(ids, r) == ids,
{
    assert(moved(ids, r) =~= ids);
}

/// A rewrite of anything but variables keeps what statements bind.
pub proof fn lemma_bound_kept(v: Seq<StmtView>, r: Rewrite)
    requires
        !(r is Locals),
    ensures
        bound_ids(rewrite_stmts(v, r)) == bound_ids(v),
{
    lemma_bound_rewritten(v, r);
    lemma_moved_same(bound_ids(v), r);
}

/// A rewrite moves the ids that statements bind, and nothing more.
proof fn lemma_bound_rewritten(v: Seq<StmtView>, r: Rewrite)
    ensures
        bound_ids(rewrite_stmts(v, r)) == moved(bound_ids(v), r),
    decreases v, v.len(),
{
    let out = rewrite_stmts(v, r);
    if v.len() == 0 {
        assert(bound_ids(out) =~= moved(bound_ids(v), r));
    } else {
        let front = v.drop_last();
        lemma_bound_rewritten(front, r);
        assert(out.drop_last() =~= rewrite_stmts(front, r));
        assert(v.last() == v[v.len() - 1]);
        lemma_bound_by_rewritten(v[v.len() - 1], r);
        assert(out.last() == rewrite_stmt(v.last(), r));
        lemma_moved_concat(bound_ids(front), bound_by(v.last()), r);
    }
}

proof fn lemma_bound_cases_rewritten(v: Seq<CaseView>, r: Rewrite)
    ensures
        bound_by_cases(rewrite_cases(v, r)) == moved(bound_by_cases(v), r),
    decreases v, v.len(),
{
    let out = rewrite_cases(v, r);
    if v.len() == 0 {
        assert(bound_by_cases(out) =~= moved(bound_by_cases(v), r));
    } else {
        let front = v.drop_last();
        lemma_bound_cases_rewritten(front, r);
        assert(out.drop_last() =~= rewrite_cases(front, r));
        assert(v.last() == v[v.len() - 1]);
        lemma_bound_rewritten(v[v.len() - 1].body, r);
        assert(out.last().body == rewrite_stmts(v.last().body, r));
        lemma_moved_concat(bound_by_cases(front), bound_ids(v.last().body), r);
    }
}

proof fn lemma_bound_by_rewritten(s: StmtView, r: Rewrite)
    ensures
        bound_by(rewrite_stmt(s, r)) == moved(bound_by(s), r),
    decreases s, 1nat,
{
    let none = Seq::<LocalId>::empty();
    assert(moved(none, r) =~= none);
    match s {
        StmtView::Let { id, .. } => {
            assert(seq![rebound(id, r)] =~= moved(seq![id], r));
        },
        StmtView::If { then_branch, else_branch, .. } => {
            lemma_bound_rewritten(then_branch, r);
            match else_branch {
                Some(b) => {
                    lemma_bound_rewritten(b, r);
                    lemma_moved_concat(bound_ids(then_branch), bound_ids(b), r);
                },
                None => lemma_moved_concat(bound_ids(then_branch), none, r),
            }
        },
        StmtView::While { body, .. } => lemma_bound_rewritten(body, r),
        StmtView::DoWhile { body, .. } => lemma_bound_rewritten(body, r),
        StmtView::For { init, body, .. } => {
            lemma_bound_rewritten(body, r);
            match init {
                Some(i) => {
                    lemma_bound_by_rewritten(*i, r);
                    lemma_moved_concat(bound_by(*i), bound_ids(body), r);
                },
                None => lemma_moved_concat(none, bound_ids(body), r),
            }
        },
        StmtView::Labeled { body, .. } => lemma_bound_by_rewritten(*body, r),
        StmtView::Try { .. } => lemma_bound_by_try_rewritten(s, r),
        StmtView::Switch { cases, .. } => lemma_bound_cases_rewritten(cases, r),
        _ => {},
    }
}

proof fn lemma_bound_by_try_rewritten(s: StmtView, r: Rewrite)
    requires
        s is Try,
    ensures
        bound_by(rewrite_stmt(s, r)) == moved(bound_by(s), r),
    decreases s, 0nat,
{
    let none = Seq::<LocalId>::empty();
    assert(moved(none, r) =~= none);
    match s {
        StmtView::Try { body, catch, finally } => {
            lemma_bound_rewritten(body, r);
            let caught = match catch {
                Some(c) => {
                    lemma_bound_rewritten(c.body, r);
                    let param = match c.param {
                        Some(p) => {
                            assert(seq![rebound(p.0, r)] =~= moved(seq![p.0], r));
                            seq![p.0]
                        },
                        None => none,
                    };
                    lemma_moved_concat(param, bound_ids(c.body), r);
                    param + bound_ids(c.body)
                },
                None => none,
            };
            let last = match finally {
                Some(b) => {
                    lemma_bound_rewritten(b, r);
                    bound_ids(b)
                },
                None => none,
            };
            lemma_moved_concat(bound_ids(body), caught, r);
            lemma_moved_concat(bound_ids(body) + caught, last, r);
        },
        _ => {},
    }
}

// ---------------------------------------------------------------------------
// A single call
// ---------------------------------------------------------------------------

/// Whether the function binds each of its parameters and variables once.
pub open spec fn binds_once(f: FunctionView) -> bool {
    (param_ids(f.params) + bound_ids(f.body)).no_duplicates()
}

pub proof fn lemma_binds_once(f: FunctionView)
    requires
        binds_once(f),
    ensures
        param_ids(f.params).no_duplicates(),
        bound_ids(f.body).no_duplicates(),
        forall|i: int, j: int|
            0 <= i < f.params.len() && 0 <= j < bound_ids(f.body).len()
                ==> #[trigger] f.params[i].id != #[trigger] bound_ids(f.body)[j],
{
    let a = param_ids(f.params);
    let b = bound_ids(f.body);
    assert forall|i: int, j: int| 0 <= i < a.len() && 0 <= j < a.len() && i != j implies a[i]
        != a[j] by {
        assert((a + b)[i] == a[i] && (a + b)[j] == a[j]);
    }
    assert forall|i: int, j: int| 0 <= i < b.len() && 0 <= j < b.len() && i != j implies b[i]
        != b[j] by {
        assert((a + b)[a.len() + i] == b[i] && (a + b)[a.len() + j] == b[j]);
    }
    assert forall|i: int, j: int|
        0 <= i < f.params.len() && 0 <= j < b.len() implies #[trigger] f.params[i].id
        != #[trigger] b[j] by {
        assert((a + b)[i] == f.params[i].id);
        assert((a + b)[a.len() + j] == b[j]);
    }
}

/// What the first `k` parameters are mapped to: a nontrivial argument's variable has
/// the count at its turn.
pub proof fn lemma_bind_fresh(params: Seq<ParamView>, args: Seq<ExprView>, k: nat, n: nat)
    requires
        k <= params.len(),
        param_ids(params).no_duplicates(),
    ensures
        n <= bind_fresh(params, args, k, n).1,
        forall|id: LocalId| #[trigger]
            bind_fresh(params, args, k, n).0.contains_key(id) ==> exists|i: int|
                0 <= i < k && #[trigger] params[i].id == id,
        forall|i: int|
            0 <= i < k ==> {
                let (m, _) = bind_fresh(params, args, k, n);
                &&& m.contains_key(#[trigger] params[i].id)
                &&& !is_trivial(args[i]) ==> m[params[i].id] == ExprView::LocalGet(
                    bind_fresh(params, args, i as nat, n).1 as LocalId,
                )
            },
    decreases k,
{
    if k > 0 {
        lemma_bind_fresh(params, args, (k - 1) as nat, n);
        let (m0, _) = bind_fresh(params, args, (k - 1) as nat, n);
        let (m, _) = bind_fresh(params, args, k, n);
        assert forall|i: int| 0 <= i < k implies {
            &&& m.contains_key(#[trigger] params[i].id)
            &&& !is_trivial(args[i]) ==> m[params[i].id] == ExprView::LocalGet(
                bind_fresh(params, args, i as nat, n).1 as LocalId,
            )
        } by {
            if i < k - 1 {
                assert(param_ids(params)[i] != param_ids(params)[k - 1]);
                assert(m0.contains_key(params[i].id));
            }
        }
        assert forall|id: LocalId| #[trigger] m.contains_key(id) implies exists|i: int|
            0 <= i < k && #[trigger] params[i].id == id by {
            if id == params[k - 1].id {
            } else {
                assert(m0.contains_key(id));
            }
        }
    }
}

/// A fresh variable for each id that is not mapped yet, in order.
pub proof fn lemma_rename_fresh(ids: Seq<LocalId>, m: Map<LocalId, ExprView>, n: nat)
    requires
        ids.no_duplicates(),
        forall|i: int| 0 <= i < ids.len() ==> !m.contains_key(#[trigger] ids[i]),
    ensures
        rename_fresh(ids, m, n).1 == n + ids.len(),
        forall|id: LocalId| #[trigger]
            rename_fresh(ids, m, n).0.contains_key(id) <==> m.contains_key(id) || ids.contains(id),
        forall|id: LocalId| #[trigger]
            m.contains_key(id) ==> rename_fresh(ids, m, n).0[id] == m[id],
        forall|i: int|
            0 <= i < ids.len() ==> rename_fresh(ids, m, n).0[#[trigger] ids[i]]
                == ExprView::LocalGet((n + i) as LocalId),
    decreases ids.len(),
{
    if ids.len() > 0 {
        let front = ids.drop_last();
        assert forall|i: int| 0 <= i < front.len() implies !m.contains_key(
            #[trigger] front[i],
        ) by {
            assert(front[i] == ids[i]);
        }
        assert forall|i: int, j: int|
            0 <= i < front.len() && 0 <= j < front.len() && i != j implies front[i]
            != front[j] by {
            assert(front[i] == ids[i] && front[j] == ids[j]);
        }
        lemma_rename_fresh(front, m, n);
        let (m1, n1) = rename_fresh(front, m, n);
        let last = ids.last();
        assert(last == ids[ids.len() - 1]);
        assert(!front.contains(last)) by {
            assert forall|i: int| 0 <= i < front.len() implies front[i] != last by {
                assert(front[i] == ids[i]);
            }
        }
        assert(!m1.contains_key(last));
        let (m2, _) = rename_fresh(ids, m, n);
        assert forall|id: LocalId| #[trigger] m2.contains_key(id) <==> m.contains_key(id)
            || ids.contains(id) by {
            if id != last && ids.contains(id) {
                let i = choose|i: int| 0 <= i < ids.len() && ids[i] == id;
                assert(front[i] == id);
            }
            if front.contains(id) {
                let i = choose|i: int| 0 <= i < front.len() && front[i] == id;
                assert(ids[i] == id);
            }
        }
        assert forall|i: int| 0 <= i < ids.len() implies m2[#[trigger] ids[i]]
            == ExprView::LocalGet((n + i) as LocalId) by {
            if i < front.len() {
                assert(front[i] == ids[i]);
            }
        }
    }
}

/// The lets for arguments bind the count at their turn.
proof fn lemma_argument_lets(params: Seq<ParamView>, args: Seq<ExprView>, k: nat, n: nat, lo: nat)
    requires
        lo <= n,
        bind_fresh(params, args, k, n).1 <= u32::MAX,
    ensures
        n <= bind_fresh(params, args, k, n).1,
        tidy(
            bound_ids(argument_lets(params, args, k, n)),
            lo,
            n,
            bind_fresh(params, args, k, n).1,
        ),
    decreases k,
{
    if k > 0 {
        lemma_argument_lets(params, args, (k - 1) as nat, n, lo);
        let front = argument_lets(params, args, (k - 1) as nat, n);
        let n1 = bind_fresh(params, args, (k - 1) as nat, n).1;
        if !is_trivial(args[k - 1]) {
            let s = argument_let(n1 as LocalId, params[k - 1], args[k - 1]);
            lemma_bound_push(front, s);
            assert(tidy(seq![n1 as LocalId], lo, n1, n1 + 1));
            lemma_tidy_concat(bound_ids(front), seq![n1 as LocalId], lo, n, n1, n1 + 1);
        }
    }
}

/// The lets over a map of the call are the lets for the arguments.
proof fn lemma_mapped_lets(
    params: Seq<ParamView>,
    args: Seq<ExprView>,
    k: nat,
    n: nat,
    m: Map<LocalId, ExprView>,
)
    requires
        k <= params.len(),
        forall|i: int|
            0 <= i < k ==> {
                &&& m.contains_key(#[trigger] params[i].id)
                &&& !is_trivial(args[i]) ==> m[params[i].id] == ExprView::LocalGet(
                    bind_fresh(params, args, i as nat, n).1 as LocalId,
                )
            },
    ensures
        mapped_lets(params, args, k, m) == argument_lets(params, args, k, n),
    decreases k,
{
    if k > 0 {
        lemma_mapped_lets(params, args, (k - 1) as nat, n, m);
        assert(m.contains_key(params[k - 1].id));
    }
}

/// What the body of a call binds, renamed, and the lets for its arguments.
proof fn lemma_call_lets(f: FunctionView, args: Seq<ExprView>, n: nat, lo: nat)
    requires
        binds_once(f),
        lo <= n,
        call_map(f, args, n).1 <= u32::MAX,
    ensures
        ({
            let (m, n1) = call_map(f, args, n);
            let k = pairs(f.params, args);
            let lets = argument_lets(f.params, args, k, n);
            &&& n <= n1
            &&& mapped_lets(f.params, args, k, m) == lets
            &&& tidy(bound_ids(lets) + moved(bound_ids(f.body), Rewrite::Locals(m)), lo, n, n1)
        }),
{
    let k = pairs(f.params, args);
    let ids = bound_ids(f.body);
    let (m0, n0) = bind_fresh(f.params, args, k, n);
    let (m, n1) = call_map(f, args, n);
    lemma_binds_once(f);
    lemma_bind_fresh(f.params, args, k, n);
    assert forall|i: int| 0 <= i < ids.len() implies !m0.contains_key(#[trigger] ids[i]) by {
        if m0.contains_key(ids[i]) {
            let j = choose|j: int| 0 <= j < k && #[trigger] f.params[j].id == ids[i];
            assert(f.params[j].id != ids[i]);
        }
    }
    lemma_rename_fresh(ids, m0, n0);
    assert forall|i: int| 0 <= i < k implies {
        &&& m.contains_key(#[trigger] f.params[i].id)
        &&& !is_trivial(args[i]) ==> m[f.params[i].id] == ExprView::LocalGet(
            bind_fresh(f.params, args, i as nat, n).1 as LocalId,
        )
    } by {
        assert(m0.contains_key(f.params[i].id));
    }
    lemma_mapped_lets(f.params, args, k, n, m);
    lemma_argument_lets(f.params, args, k, n, lo);
    let new = moved(ids, Rewrite::Locals(m));
    assert forall|i: int| 0 <= i < new.len() implies (#[trigger] new[i]) == n0 + i by {
        assert(m.contains_key(ids[i]));
    }
    assert(tidy(new, lo, n0, n1));
    lemma_tidy_concat(
        bound_ids(argument_lets(f.params, args, k, n)),
        new,
        lo,
        n,
        n0,
        n1,
    );
}

/// Whether each candidate binds each of its parameters and variables once.
pub open spec fn candidates_bind_once(c: CandidatesView) -> bool {
    &&& forall|id: FuncId| c.funcs.contains_key(id) ==> binds_once(#[trigger] c.funcs[id])
    &&& forall|i: int| 0 <= i < c.methods.len() ==> binds_once((#[trigger] c.methods[i]).1)
}

proof fn lemma_find_method_binds_once(
    methods: Seq<(Seq<char>, FunctionView)>,
    class: Seq<char>,
    name: Seq<char>,
)
    requires
        forall|i: int| 0 <= i < methods.len() ==> binds_once((#[trigger] methods[i]).1),
    ensures
        find_method(methods, class, name) matches Some(f) ==> binds_once(f),
    decreases methods.len(),
{
    if methods.len() > 0 {
        assert(binds_once(methods[methods.len() - 1].1));
        let front = methods.drop_last();
        assert forall|i: int| 0 <= i < front.len() implies binds_once((#[trigger] front[i]).1) by {
            assert(front[i] == methods[i]);
        }
        lemma_find_method_binds_once(front, class, name);
    }
}

proof fn lemma_callee_binds_once(
    e: ExprView,
    c: CandidatesView,
    types: Map<LocalId, Seq<char>>,
)
    requires
        candidates_bind_once(c),
    ensures
        match callee_of(e, c, types) {
            Some(CalleeView::Function(f)) => binds_once(f),
            Some(CalleeView::Method(_, f)) => binds_once(f),
            None => true,
        },
{
    match e {
        ExprView::Call { callee, .. } => match member_of_local(*callee) {
            Some((obj, name)) => {
                lemma_find_method_binds_once(c.methods, types[obj], name);
            },
            None => {},
        },
        _ => {},
    }
}

/// Statements that are expressions bind nothing.
proof fn lemma_void_binds_nothing(v: Seq<StmtView>, m: Map<LocalId, ExprView>, obj: LocalId)
    ensures
        void_stmts(v, m, obj) matches Some(out) ==> bound_ids(out).len() == 0,
    decreases v.len(),
{
    if v.len() > 0 {
        lemma_void_binds_nothing(v.drop_last(), m, obj);
        match (void_stmts(v.drop_last(), m, obj), v.last()) {
            (Some(front), StmtView::Expr(e)) => {
                lemma_bound_push(front, StmtView::Expr(method_expr(e, m, obj)));
            },
            _ => {},
        }
    }
}

/// What a call inside an expression adds.
proof fn lemma_simple_lets(
    e: ExprView,
    c: CandidatesView,
    types: Map<LocalId, Seq<char>>,
    n: nat,
    lo: nat,
)
    requires
        candidates_bind_once(c),
        lo <= n,
    ensures
        simple_call(e, c, types, n) matches Some(simple) ==> simple.next <= u32::MAX ==> n
            <= simple.next && tidy(bound_ids(simple.setup), lo, n, simple.next),
{
    lemma_callee_binds_once(e, c, types);
    let args = args_of(e);
    match callee_of(e, c, types) {
        Some(CalleeView::Function(f)) => {
            match simple_call(e, c, types, n) {
                Some(simple) => {
                    if f.body.len() > 1 && simple.next <= u32::MAX {
                        let (m, n1) = call_map(f, args, n);
                        let r = Rewrite::Locals(m);
                        lemma_call_lets(f, args, n, lo);
                        let front = f.body.drop_last();
                        let k = pairs(f.params, args);
                        assert(bound_by(f.body.last()) =~= Seq::empty());
                        assert(bound_ids(f.body) =~= bound_ids(front));
                        lemma_bound_rewritten(front, r);
                        lemma_bound_concat(
                            mapped_lets(f.params, args, k, m),
                            rewrite_stmts(front, r),
                        );
                    }
                },
                None => {},
            }
        },
        Some(CalleeView::Method(obj, f)) => {
            let m = bind_args(f.params, args, pairs(f.params, args));
            lemma_void_binds_nothing(f.body, m, obj);
        },
        None => {},
    }
}

/// What a call that is a statement adds.
proof fn lemma_full_lets(
    e: ExprView,
    c: CandidatesView,
    types: Map<LocalId, Seq<char>>,
    n: nat,
    lo: nat,
)
    requires
        candidates_bind_once(c),
        lo <= n,
    ensures
        full_call(e, c, types, n) matches Some((body, n1)) ==> n1 <= u32::MAX ==> n <= n1 && tidy(
            bound_ids(body),
            lo,
            n,
            n1,
        ),
{
    lemma_callee_binds_once(e, c, types);
    let args = args_of(e);
    match callee_of(e, c, types) {
        Some(CalleeView::Function(f)) => {
            let (m, n1) = call_map(f, args, n);
            if n1 <= u32::MAX {
                let r = Rewrite::Locals(m);
                lemma_call_lets(f, args, n, lo);
                lemma_bound_rewritten(f.body, r);
                lemma_bound_concat(
                    argument_lets(f.params, args, pairs(f.params, args), n),
                    rewrite_stmts(f.body, r),
                );
            }
        },
        Some(CalleeView::Method(obj, f)) => {
            let (m, n1) = call_map(f, args, n);
            if n1 <= u32::MAX {
                let r = Rewrite::Locals(m);
                let body = rewrite_stmts(f.body, r);
                lemma_call_lets(f, args, n, lo);
                lemma_bound_rewritten(f.body, r);
                lemma_bound_rewritten(body, Rewrite::This(obj));
                lemma_moved_same(bound_ids(body), Rewrite::This(obj));
                lemma_bound_concat(
                    argument_lets(f.params, args, pairs(f.params, args), n),
                    rewrite_stmts(body, Rewrite::This(obj)),
                );
            }
        },
        None => {},
    }
}

/// A return binds nothing.
proof fn lemma_without_return_lets(v: Seq<StmtView>)
    ensures
        bound_ids(without_return(v)) == bound_ids(v),
{
    if v.len() > 0 {
        let front = v.drop_last();
        match v.last() {
            StmtView::Return(Some(e)) => {
                lemma_bound_push(front, StmtView::Expr(e));
                assert(bound_by(StmtView::Expr(e)) =~= Seq::empty());
                assert(bound_by(v.last()) =~= Seq::empty());
                assert(bound_ids(v) =~= bound_ids(without_return(v)));
            },
            StmtView::Return(None) => {
                assert(bound_by(v.last()) =~= Seq::empty());
                assert(bound_ids(v) =~= bound_ids(front));
            },
            _ => {},
        }
    }
}

// ---------------------------------------------------------------------------
// All calls
// ---------------------------------------------------------------------------

/// What the calls in an expression add.
proof fn lemma_expr_lets(
    e: ExprView,
    c: CandidatesView,
    types: Map<LocalId, Seq<char>>,
    n: nat,
    depth: nat,
    lo: nat,
)
    requires
        candidates_bind_once(c),
        lo <= n,
    ensures
        inline_expr(e, c, types, n, depth) matches Some(run) ==> n <= run.next && tidy(
            bound_ids(run.hoisted),
            lo,
            n,
            run.next,
        ),
    decreases depth, e, 1nat, 0nat,
{
    lemma_simple_lets(e, c, types, n, lo);
    match simple_call(e, c, types, n) {
        Some(simple) => {
            if simple.next <= u32::MAX && depth > 0 {
                let less = (depth - 1) as nat;
                lemma_expr_lets(simple.result, c, types, simple.next, less, lo);
                match inline_expr(simple.result, c, types, simple.next, less) {
                    Some(run) => {
                        lemma_bound_concat(simple.setup, run.hoisted);
                        lemma_tidy_concat(
                            bound_ids(simple.setup),
                            bound_ids(run.hoisted),
                            lo,
                            n,
                            simple.next,
                            run.next,
                        );
                    },
                    None => {},
                }
            }
        },
        None => {
            if searched(e) {
                lemma_children_lets(e, children(e).len(), c, types, n, depth, lo);
            }
        },
    }
}

proof fn lemma_children_lets(
    e: ExprView,
    k: nat,
    c: CandidatesView,
    types: Map<LocalId, Seq<char>>,
    n: nat,
    depth: nat,
    lo: nat,
)
    requires
        candidates_bind_once(c),
        lo <= n,
    ensures
        inline_children(e, k, c, types, n, depth) matches Some(run) ==> n <= run.next && tidy(
            bound_ids(run.hoisted),
            lo,
            n,
            run.next,
        ),
    decreases depth, e, 0nat, k,
{
    if 0 < k <= children(e).len() {
        lemma_children_smaller(e, k - 1);
        lemma_children_lets(e, (k - 1) as nat, c, types, n, depth, lo);
        match inline_children(e, (k - 1) as nat, c, types, n, depth) {
            Some(front) => {
                lemma_expr_lets(children(e)[k - 1], c, types, front.next, depth, lo);
                match inline_expr(children(e)[k - 1], c, types, front.next, depth) {
                    Some(run) => {
                        lemma_bound_concat(front.hoisted, run.hoisted);
                        lemma_tidy_concat(
                            bound_ids(front.hoisted),
                            bound_ids(run.hoisted),
                            lo,
                            n,
                            front.next,
                            run.next,
                        );
                    },
                    None => {},
                }
            },
            None => {},
        }
    }
}

/// What the calls in a head of a loop would add is not added.
proof fn lemma_head_next(
    o: Option<ExprView>,
    c: CandidatesView,
    types: Map<LocalId, Seq<char>>,
    n: nat,
    depth: nat,
)
    requires
        candidates_bind_once(c),
    ensures
        inline_head(o, c, types, n, depth) matches Some((_, next)) ==> n <= next,
{
    match o {
        Some(e) => lemma_expr_lets(e, c, types, n, depth, 0),
        None => {},
    }
}

/// The statement behind what its expression needs.
proof fn lemma_placed_lets(
    e: ExprView,
    s: StmtView,
    c: CandidatesView,
    types: Map<LocalId, Seq<char>>,
    n: nat,
    depth: nat,
    lo: nat,
)
    requires
        candidates_bind_once(c),
        lo <= n,
        below(bound_by(s), lo),
    ensures
        inline_expr(e, c, types, n, depth) matches Some(run) ==> n <= run.next && tidy(
            bound_ids(run.hoisted.push(s)),
            lo,
            n,
            run.next,
        ),
{
    lemma_expr_lets(e, c, types, n, depth, lo);
    match inline_expr(e, c, types, n, depth) {
        Some(run) => {
            lemma_bound_push(run.hoisted, s);
            lemma_tidy_old(bound_ids(run.hoisted), bound_by(s), lo, n, run.next);
        },
        None => {},
    }
}

/// What the calls in a statement that binds old ids add.
proof fn lemma_stmt_lets(
    s: StmtView,
    c: CandidatesView,
    known: Map<LocalId, Seq<char>>,
    n: nat,
    depth: nat,
    lo: nat,
)
    requires
        candidates_bind_once(c),
        lo <= n,
        below(bound_by(s), lo),
    ensures
        inline_stmt(s, c, known, n, depth) matches Some(run) ==> n <= run.next && tidy(
            bound_ids(run.out),
            lo,
            n,
            run.next,
        ),
    decreases s, 2nat,
{
    let types = noted(s, known);
    match s {
        StmtView::Expr(e) => {
            lemma_full_lets(e, c, types, n, lo);
            match full_call(e, c, types, n) {
                Some((body, n1)) => {
                    if n1 <= u32::MAX {
                        lemma_without_return_lets(body);
                        lemma_in_place_lets(e, c, types, n1, depth, lo);
                        match inline_expr(e, c, types, n1, depth) {
                            Some(run) => lemma_tidy_wider(
                                bound_ids(run.hoisted.push(StmtView::Expr(run.expr))),
                                lo,
                                n,
                                n1,
                                run.next,
                                run.next,
                            ),
                            None => {},
                        }
                    }
                },
                None => lemma_in_place_lets(e, c, types, n, depth, lo),
            }
        },
        StmtView::Let { id, name, ty, mutable, init: Some(e) } => {
            match inline_expr(e, c, types, n, depth) {
                Some(run) => {
                    let out = StmtView::Let { id, name, ty, mutable, init: Some(run.expr) };
                    lemma_placed_lets(e, out, c, types, n, depth, lo);
                },
                None => {},
            }
        },
        StmtView::Return(Some(e)) => {
            match inline_expr(e, c, types, n, depth) {
                Some(run) => {
                    let out = StmtView::Return(Some(run.expr));
                    lemma_placed_lets(e, out, c, types, n, depth, lo);
                },
                None => {},
            }
        },
        StmtView::Throw(e) => {
            match inline_expr(e, c, types, n, depth) {
                Some(run) => {
                    lemma_placed_lets(e, StmtView::Throw(run.expr), c, types, n, depth, lo);
                },
                None => {},
            }
        },
        StmtView::If { .. } => lemma_if_lets(s, c, known, n, depth, lo),
        StmtView::While { .. } => lemma_while_lets(s, c, known, n, depth, lo),
        StmtView::For { .. } => lemma_for_lets(s, c, known, n, depth, lo),
        _ => {
            lemma_bound_one(s);
            lemma_below_tidy(bound_by(s), lo, n, n);
        },
    }
}

proof fn lemma_in_place_lets(
    e: ExprView,
    c: CandidatesView,
    types: Map<LocalId, Seq<char>>,
    n: nat,
    depth: nat,
    lo: nat,
)
    requires
        candidates_bind_once(c),
        lo <= n,
    ensures
        inline_expr(e, c, types, n, depth) matches Some(run) ==> n <= run.next && tidy(
            bound_ids(run.hoisted.push(StmtView::Expr(run.expr))),
            lo,
            n,
            run.next,
        ),
{
    match inline_expr(e, c, types, n, depth) {
        Some(run) => lemma_placed_lets(e, StmtView::Expr(run.expr), c, types, n, depth, lo),
        None => {},
    }
}

proof fn lemma_if_lets(
    s: StmtView,
    c: CandidatesView,
    known: Map<LocalId, Seq<char>>,
    n: nat,
    depth: nat,
    lo: nat,
)
    requires
        s is If,
        candidates_bind_once(c),
        lo <= n,
        below(bound_by(s), lo),
    ensures
        inline_stmt(s, c, known, n, depth) matches Some(run) ==> n <= run.next && tidy(
            bound_ids(run.out),
            lo,
            n,
            run.next,
        ),
    decreases s, 1nat,
{
    let types = noted(s, known);
    let none = Seq::<LocalId>::empty();
    match s {
        StmtView::If { condition, then_branch, else_branch } => {
            if inline_stmt(s, c, known, n, depth) is Some {
                let cond = inline_expr(condition, c, types, n, depth)->0;
                lemma_expr_lets(condition, c, types, n, depth, lo);
                let head = bound_ids(cond.hoisted);
                let old_else = match else_branch {
                    Some(b) => bound_ids(b),
                    None => none,
                };
                lemma_below_parts(bound_ids(then_branch), old_else, lo);
                let yes = inline_stmts(then_branch, c, types, cond.next, depth)->0;
                lemma_stmts_lets(then_branch, c, types, cond.next, depth, lo);
                match else_branch {
                    Some(b) => {
                        let no = inline_stmts(b, c, yes.types, yes.next, depth)->0;
                        lemma_stmts_lets(b, c, yes.types, yes.next, depth, lo);
                        let out = StmtView::If {
                            condition: cond.expr,
                            then_branch: yes.out,
                            else_branch: Some(no.out),
                        };
                        assert(bound_by(out) == bound_ids(yes.out) + bound_ids(no.out));
                        lemma_tidy_concat(
                            bound_ids(yes.out),
                            bound_ids(no.out),
                            lo,
                            cond.next,
                            yes.next,
                            no.next,
                        );
                        lemma_bound_push(cond.hoisted, out);
                        lemma_tidy_concat(head, bound_by(out), lo, n, cond.next, no.next);
                    },
                    None => {
                        let out = StmtView::If {
                            condition: cond.expr,
                            then_branch: yes.out,
                            else_branch: None,
                        };
                        assert(bound_by(out) =~= bound_ids(yes.out));
                        lemma_bound_push(cond.hoisted, out);
                        lemma_tidy_concat(head, bound_by(out), lo, n, cond.next, yes.next);
                    },
                }
            }
        },
        _ => {},
    }
}

proof fn lemma_while_lets(
    s: StmtView,
    c: CandidatesView,
    known: Map<LocalId, Seq<char>>,
    n: nat,
    depth: nat,
    lo: nat,
)
    requires
        s is While,
        candidates_bind_once(c),
        lo <= n,
        below(bound_by(s), lo),
    ensures
        inline_stmt(s, c, known, n, depth) matches Some(run) ==> n <= run.next && tidy(
            bound_ids(run.out),
            lo,
            n,
            run.next,
        ),
    decreases s, 1nat,
{
    let types = noted(s, known);
    match s {
        StmtView::While { condition, body } => {
            if inline_stmt(s, c, known, n, depth) is Some {
                let cond = inline_expr(condition, c, types, n, depth)->0;
                lemma_expr_lets(condition, c, types, n, depth, lo);
                let run = inline_stmts(body, c, types, cond.next, depth)->0;
                lemma_stmts_lets(body, c, types, cond.next, depth, lo);
                let out = StmtView::While { condition: head_of(condition, cond), body: run.out };
                lemma_bound_one(out);
                assert(bound_by(out) == bound_ids(run.out));
                lemma_tidy_wider(bound_ids(run.out), lo, n, cond.next, run.next, run.next);
            }
        },
        _ => {},
    }
}

proof fn lemma_for_lets(
    s: StmtView,
    c: CandidatesView,
    known: Map<LocalId, Seq<char>>,
    n: nat,
    depth: nat,
    lo: nat,
)
    requires
        s is For,
        candidates_bind_once(c),
        lo <= n,
        below(bound_by(s), lo),
    ensures
        inline_stmt(s, c, known, n, depth) matches Some(run) ==> n <= run.next && tidy(
            bound_ids(run.out),
            lo,
            n,
            run.next,
        ),
    decreases s, 1nat,
{
    let types = noted(s, known);
    let none = Seq::<LocalId>::empty();
    match s {
        StmtView::For { init, condition, update, body } => {
            if inline_stmt(s, c, known, n, depth) is Some {
                let old_init = match init {
                    Some(i) => bound_by(*i),
                    None => none,
                };
                lemma_below_parts(old_init, bound_ids(body), lo);
                let (start, types1, n1) = match init {
                    Some(i) => {
                        lemma_stmt_lets(*i, c, types, n, depth, lo);
                        let run = inline_stmt(*i, c, types, n, depth)->0;
                        let first = if run.out.len() == 1 { run.out[0] } else { *i };
                        if run.out.len() == 1 {
                            assert(run.out =~= seq![first]);
                            lemma_bound_one(first);
                        } else {
                            lemma_below_tidy(bound_by(first), lo, n, run.next);
                        }
                        (Some(Box::new(first)), run.types, run.next)
                    },
                    None => (None, types, n),
                };
                let new_init = match start {
                    Some(i) => bound_by(*i),
                    None => none,
                };
                assert(n <= n1 && tidy(new_init, lo, n, n1));
                lemma_head_next(condition, c, types1, n1, depth);
                let (cond, n2) = inline_head(condition, c, types1, n1, depth)->0;
                lemma_head_next(update, c, types1, n2, depth);
                let (upd, n3) = inline_head(update, c, types1, n2, depth)->0;
                lemma_stmts_lets(body, c, types1, n3, depth, lo);
                let run = inline_stmts(body, c, types1, n3, depth)->0;
                let out = StmtView::For {
                    init: start,
                    condition: cond,
                    update: upd,
                    body: run.out,
                };
                lemma_bound_one(out);
                assert(bound_by(out) == new_init + bound_ids(run.out));
                lemma_tidy_wider(bound_ids(run.out), lo, n1, n3, run.next, run.next);
                lemma_tidy_concat(new_init, bound_ids(run.out), lo, n, n1, run.next);
            }
        },
        _ => {},
    }
}

/// What the calls in statements that bind old ids add.
pub proof fn lemma_stmts_lets(
    v: Seq<StmtView>,
    c: CandidatesView,
    types: Map<LocalId, Seq<char>>,
    n: nat,
    depth: nat,
    lo: nat,
)
    requires
        candidates_bind_once(c),
        lo <= n,
        below(bound_ids(v), lo),
    ensures
        inline_stmts(v, c, types, n, depth) matches Some(run) ==> n <= run.next && tidy(
            bound_ids(run.out),
            lo,
            n,
            run.next,
        ),
    decreases v, v.len() + 1,
{
    lemma_first_lets(v, v.len(), c, types, n, depth, lo);
}

proof fn lemma_first_lets(
    v: Seq<StmtView>,
    k: nat,
    c: CandidatesView,
    types: Map<LocalId, Seq<char>>,
    n: nat,
    depth: nat,
    lo: nat,
)
    requires
        candidates_bind_once(c),
        lo <= n,
        below(bound_ids(v), lo),
    ensures
        inline_first(v, k, c, types, n, depth) matches Some(run) ==> n <= run.next && tidy(
            bound_ids(run.out),
            lo,
            n,
            run.next,
        ),
    decreases v, k,
{
    if 0 < k <= v.len() {
        lemma_first_lets(v, (k - 1) as nat, c, types, n, depth, lo);
        match inline_first(v, (k - 1) as nat, c, types, n, depth) {
            Some(front) => {
                lemma_below_each(v, lo, k - 1);
                lemma_stmt_lets(v[k - 1], c, front.types, front.next, depth, lo);
                match inline_stmt(v[k - 1], c, front.types, front.next, depth) {
                    Some(one) => {
                        lemma_bound_concat(front.out, one.out);
                        lemma_tidy_concat(
                            bound_ids(front.out),
                            bound_ids(one.out),
                            lo,
                            n,
                            front.next,
                            one.next,
                        );
                    },
                    None => {},
                }
            },
            None => {},
        }
    }
}

} // verus!

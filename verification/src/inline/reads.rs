//! Variables that inlining adds are bound before they are used.
//!
//! Statements are read from the top down, with the variables that are bound so far at
//! hand. What the pass puts in holds no variable of its own that is not among them.

use crate::hir::LocalId;
use crate::inline::fresh::{
    free, lemma_free, lemma_local_free, lemma_rewrite_free, lemma_stmts_free,
    lemma_stmts_free_front, stmt_free, stmts_free, values_free,
};
use crate::inline::scan::{cases_have, lemma_cases_lack, lemma_stmt_has, opt_expr_has, NodeTest};
use crate::model::{CaseView, ExprView, StmtView, TypeView};
use crate::rewrite::{
    kept_captures, remap, rewrite_cases, rewrite_children, rewrite_closure, rewrite_expr,
    rewrite_params, rewrite_stmt, rewrite_stmts, Rewrite,
};
use crate::walk::{children, lemma_children_smaller, lemma_default_listed};
use vstd::prelude::*;

verus! {

// ---------------------------------------------------------------------------
// What a substitution looks at
// ---------------------------------------------------------------------------

/// Whether the maps differ at the id.
pub open spec fn differ(m: Map<LocalId, ExprView>, w: Map<LocalId, ExprView>, y: LocalId) -> bool {
    m.contains_key(y) != w.contains_key(y) || (m.contains_key(y) && m[y] != w[y])
}

proof fn lemma_captures_agree(
    ids: Seq<LocalId>,
    m: Map<LocalId, ExprView>,
    w: Map<LocalId, ExprView>,
)
    requires
        forall|i: int| 0 <= i < ids.len() ==> !differ(m, w, #[trigger] ids[i]),
    ensures
        kept_captures(ids, m) == kept_captures(ids, w),
    decreases ids.len(),
{
    if ids.len() > 0 {
        let front = ids.drop_last();
        assert forall|i: int| 0 <= i < front.len() implies !differ(m, w, #[trigger] front[i]) by {
            assert(front[i] == ids[i]);
        }
        lemma_captures_agree(front, m, w);
        assert(!differ(m, w, ids[ids.len() - 1]));
    }
}

/// Substitution looks at no variable that the expression does not name.
proof fn lemma_agree(e: ExprView, m: Map<LocalId, ExprView>, w: Map<LocalId, ExprView>)
    requires
        forall|y: LocalId| #[trigger] differ(m, w, y) ==> free(e, y),
    ensures
        rewrite_expr(e, Rewrite::Locals(m)) == rewrite_expr(e, Rewrite::Locals(w)),
    decreases e, 1nat,
{
    let r = Rewrite::Locals(m);
    let q = Rewrite::Locals(w);
    assert forall|i: int| 0 <= i < children(e).len() implies #[trigger] rewrite_children(e, r)[i]
        == rewrite_children(e, q)[i] by {
        lemma_children_smaller(e, i);
        assert forall|y: LocalId| #[trigger] differ(m, w, y) implies free(children(e)[i], y) by {
            lemma_free(e, y);
        }
        lemma_agree(children(e)[i], m, w);
    }
    assert(rewrite_children(e, r) =~= rewrite_children(e, q));
    match e {
        ExprView::LocalGet(id) => {
            lemma_free(e, id);
            assert(!differ(m, w, id));
        },
        ExprView::LocalSet(id, _) => {
            lemma_free(e, id);
            assert(!differ(m, w, id));
        },
        ExprView::Update { id, .. } => {
            lemma_free(e, id);
            assert(!differ(m, w, id));
        },
        ExprView::LocalCall { id, .. } => {
            lemma_free(e, id);
            assert(!differ(m, w, id));
        },
        ExprView::Closure { .. } => lemma_agree_closure(e, m, w),
        _ => {},
    }
}

proof fn lemma_agree_closure(e: ExprView, m: Map<LocalId, ExprView>, w: Map<LocalId, ExprView>)
    requires
        e is Closure,
        forall|y: LocalId| #[trigger] differ(m, w, y) ==> free(e, y),
    ensures
        rewrite_closure(e, Rewrite::Locals(m)) == rewrite_closure(e, Rewrite::Locals(w)),
    decreases e, 0nat,
{
    match e {
        ExprView::Closure { params, body, captures, mutable_captures, .. } => {
            assert forall|y: LocalId| #[trigger] differ(m, w, y) implies stmts_free(body, y) by {
                lemma_free(e, y);
            }
            lemma_agree_stmts(body, m, w);
            assert forall|i: int| 0 <= i < captures.len() implies !differ(
                m,
                w,
                #[trigger] captures[i],
            ) by {
                lemma_free(e, captures[i]);
            }
            lemma_captures_agree(captures, m, w);
            assert forall|i: int| 0 <= i < mutable_captures.len() implies !differ(
                m,
                w,
                #[trigger] mutable_captures[i],
            ) by {
                lemma_free(e, mutable_captures[i]);
            }
            lemma_captures_agree(mutable_captures, m, w);
            let a = rewrite_params(params, Rewrite::Locals(m));
            let b = rewrite_params(params, Rewrite::Locals(w));
            assert forall|i: int| 0 <= i < params.len() implies #[trigger] a[i] == b[i] by {
                match params[i].default {
                    Some(d) => {
                        lemma_default_listed(params, i);
                        let k = choose|k: int|
                            0 <= k < children(e).len() && #[trigger] children(e)[k] == d;
                        assert forall|y: LocalId| #[trigger] differ(m, w, y) implies free(
                            d,
                            y,
                        ) by {
                            lemma_free(e, y);
                            assert(free(children(e)[k], y));
                        }
                        lemma_agree(d, m, w);
                    },
                    None => {},
                }
            }
            assert(a =~= b);
        },
        _ => {},
    }
}

proof fn lemma_agree_stmts(
    v: Seq<StmtView>,
    m: Map<LocalId, ExprView>,
    w: Map<LocalId, ExprView>,
)
    requires
        forall|y: LocalId| #[trigger] differ(m, w, y) ==> stmts_free(v, y),
    ensures
        rewrite_stmts(v, Rewrite::Locals(m)) == rewrite_stmts(v, Rewrite::Locals(w)),
    decreases v, 0nat,
{
    let a = rewrite_stmts(v, Rewrite::Locals(m));
    let b = rewrite_stmts(v, Rewrite::Locals(w));
    assert forall|i: int| 0 <= i < v.len() implies #[trigger] a[i] == b[i] by {
        assert forall|y: LocalId| #[trigger] differ(m, w, y) implies stmt_free(v[i], y) by {
            lemma_stmts_free(v, y);
        }
        lemma_agree_stmt(v[i], m, w);
    }
    assert(a =~= b);
}

proof fn lemma_agree_cases(
    v: Seq<CaseView>,
    m: Map<LocalId, ExprView>,
    w: Map<LocalId, ExprView>,
)
    requires
        forall|y: LocalId| #[trigger] differ(m, w, y) ==> !cases_have(v, NodeTest::Names(y)),
    ensures
        rewrite_cases(v, Rewrite::Locals(m)) == rewrite_cases(v, Rewrite::Locals(w)),
    decreases v, 0nat,
{
    let a = rewrite_cases(v, Rewrite::Locals(m));
    let b = rewrite_cases(v, Rewrite::Locals(w));
    assert forall|i: int| 0 <= i < v.len() implies #[trigger] a[i] == b[i] by {
        assert forall|y: LocalId| #[trigger] differ(m, w, y) implies !opt_expr_has(
            v[i].test,
            NodeTest::Names(y),
        ) && stmts_free(v[i].body, y) by {
            lemma_cases_lack(v, NodeTest::Names(y));
        }
        match v[i].test {
            Some(e) => lemma_agree(e, m, w),
            None => {},
        }
        lemma_agree_stmts(v[i].body, m, w);
    }
    assert(a =~= b);
}

proof fn lemma_agree_opt(
    o: Option<ExprView>,
    m: Map<LocalId, ExprView>,
    w: Map<LocalId, ExprView>,
)
    requires
        forall|y: LocalId| #[trigger] differ(m, w, y) ==> !opt_expr_has(o, NodeTest::Names(y)),
    ensures
        o matches Some(e) ==> rewrite_expr(e, Rewrite::Locals(m)) == rewrite_expr(
            e,
            Rewrite::Locals(w),
        ),
    decreases o, 2nat,
{
    match o {
        Some(e) => lemma_agree(e, m, w),
        None => {},
    }
}

proof fn lemma_agree_opt_stmts(
    o: Option<Seq<StmtView>>,
    m: Map<LocalId, ExprView>,
    w: Map<LocalId, ExprView>,
)
    requires
        forall|y: LocalId| #[trigger]
            differ(m, w, y) ==> (o matches Some(v) ==> stmts_free(v, y)),
    ensures
        o matches Some(v) ==> rewrite_stmts(v, Rewrite::Locals(m)) == rewrite_stmts(
            v,
            Rewrite::Locals(w),
        ),
    decreases o, 2nat,
{
    match o {
        Some(v) => lemma_agree_stmts(v, m, w),
        None => {},
    }
}

proof fn lemma_agree_stmt(s: StmtView, m: Map<LocalId, ExprView>, w: Map<LocalId, ExprView>)
    requires
        forall|y: LocalId| #[trigger] differ(m, w, y) ==> stmt_free(s, y),
    ensures
        rewrite_stmt(s, Rewrite::Locals(m)) == rewrite_stmt(s, Rewrite::Locals(w)),
    decreases s, 3nat,
{
    assert forall|y: LocalId| #[trigger] differ(m, w, y) implies parts_free_of(s, y) by {
        lemma_stmt_has(s, NodeTest::Names(y));
    }
    match s {
        StmtView::Let { id, init, .. } => {
            lemma_agree_opt(init, m, w);
            if differ(m, w, id) {
                lemma_stmt_has(s, NodeTest::Names(id));
            }
        },
        StmtView::Expr(e) => lemma_agree(e, m, w),
        StmtView::Return(o) => lemma_agree_opt(o, m, w),
        StmtView::Throw(e) => lemma_agree(e, m, w),
        StmtView::If { condition, then_branch, else_branch } => {
            lemma_agree(condition, m, w);
            lemma_agree_stmts(then_branch, m, w);
            lemma_agree_opt_stmts(else_branch, m, w);
        },
        StmtView::While { condition, body } => {
            lemma_agree(condition, m, w);
            lemma_agree_stmts(body, m, w);
        },
        StmtView::DoWhile { body, condition } => {
            lemma_agree(condition, m, w);
            lemma_agree_stmts(body, m, w);
        },
        StmtView::For { init, condition, update, body } => {
            match init {
                Some(i) => lemma_agree_stmt(*i, m, w),
                None => {},
            }
            lemma_agree_opt(condition, m, w);
            lemma_agree_opt(update, m, w);
            lemma_agree_stmts(body, m, w);
        },
        StmtView::Labeled { body, .. } => lemma_agree_stmt(*body, m, w),
        StmtView::Try { body, catch, finally } => {
            lemma_agree_stmts(body, m, w);
            match catch {
                Some(c) => {
                    lemma_agree_stmts(c.body, m, w);
                    match c.param {
                        Some(p) => {
                            if differ(m, w, p.0) {
                                lemma_stmt_has(s, NodeTest::Names(p.0));
                            }
                        },
                        None => {},
                    }
                },
                None => {},
            }
            lemma_agree_opt_stmts(finally, m, w);
        },
        StmtView::Switch { discriminant, cases } => {
            lemma_agree(discriminant, m, w);
            lemma_agree_cases(cases, m, w);
        },
        _ => {},
    }
}

/// Whether no part of the statement names the id.
pub open spec fn parts_free_of(s: StmtView, y: LocalId) -> bool {
    let t = NodeTest::Names(y);
    match s {
        StmtView::Let { init, .. } => !opt_expr_has(init, t),
        StmtView::Expr(e) => free(e, y),
        StmtView::Return(o) => !opt_expr_has(o, t),
        StmtView::Throw(e) => free(e, y),
        StmtView::If { condition, then_branch, else_branch } => free(condition, y) && stmts_free(
            then_branch,
            y,
        ) && (else_branch matches Some(b) ==> stmts_free(b, y)),
        StmtView::While { condition, body } => free(condition, y) && stmts_free(body, y),
        StmtView::DoWhile { body, condition } => free(condition, y) && stmts_free(body, y),
        StmtView::For { init, condition, update, body } => (init matches Some(i) ==> stmt_free(
            *i,
            y,
        )) && !opt_expr_has(condition, t) && !opt_expr_has(update, t) && stmts_free(body, y),
        StmtView::Labeled { body, .. } => stmt_free(*body, y),
        StmtView::Try { body, catch, finally } => stmts_free(body, y) && (catch matches Some(c)
            ==> stmts_free(c.body, y)) && (finally matches Some(b) ==> stmts_free(b, y)),
        StmtView::Switch { discriminant, cases } => free(discriminant, y) && !cases_have(cases, t),
        _ => true,
    }
}

// ---------------------------------------------------------------------------
// Bound before used
// ---------------------------------------------------------------------------

/// The ids from `lo` on.
pub open spec fn from_id(lo: nat) -> Set<LocalId> {
    Set::new(|x: LocalId| lo <= x)
}

/// Whether the watched variables that the expression names are among the bound ones.
pub open spec fn uses_bound(e: ExprView, bound: Set<LocalId>, watched: Set<LocalId>) -> bool {
    forall|x: LocalId| #[trigger] watched.contains(x) && !bound.contains(x) ==> free(e, x)
}

pub open spec fn opt_uses_bound(
    o: Option<ExprView>,
    bound: Set<LocalId>,
    watched: Set<LocalId>,
) -> bool {
    match o {
        Some(e) => uses_bound(e, bound, watched),
        None => true,
    }
}

/// What is bound behind the statement, in the same list.
pub open spec fn bound_behind(s: StmtView, bound: Set<LocalId>) -> Set<LocalId> {
    match s {
        StmtView::Let { id, .. } => bound.insert(id),
        _ => bound,
    }
}

/// What is bound behind the statements.
pub open spec fn bound_after(v: Seq<StmtView>, bound: Set<LocalId>) -> Set<LocalId>
    decreases v.len(),
{
    if v.len() == 0 {
        bound
    } else {
        bound_behind(v.last(), bound_after(v.drop_last(), bound))
    }
}

/// Whether the statement uses each watched variable behind the let that binds it,
/// where those of `bound` are bound before it. A let binds its variable for the rest
/// of its list and what is nested in it; that of a loop, for the loop.
pub open spec fn orderly_stmt(s: StmtView, bound: Set<LocalId>, watched: Set<LocalId>) -> bool
    decreases s, 0nat,
{
    match s {
        StmtView::Let { init, .. } => opt_uses_bound(init, bound, watched),
        StmtView::Expr(e) => uses_bound(e, bound, watched),
        StmtView::Return(o) => opt_uses_bound(o, bound, watched),
        StmtView::Throw(e) => uses_bound(e, bound, watched),
        StmtView::If { condition, then_branch, else_branch } => {
            &&& uses_bound(condition, bound, watched)
            &&& orderly(then_branch, bound, watched)
            &&& match else_branch {
                Some(b) => orderly(b, bound, watched),
                None => true,
            }
        },
        StmtView::While { condition, body } => uses_bound(condition, bound, watched) && orderly(
            body,
            bound,
            watched,
        ),
        StmtView::DoWhile { body, condition } => orderly(body, bound, watched) && uses_bound(
            condition,
            bound,
            watched,
        ),
        StmtView::For { init, condition, update, body } => {
            let inside = match init {
                Some(i) => bound_behind(*i, bound),
                None => bound,
            };
            &&& match init {
                Some(i) => orderly_stmt(*i, bound, watched),
                None => true,
            }
            &&& opt_uses_bound(condition, inside, watched)
            &&& opt_uses_bound(update, inside, watched)
            &&& orderly(body, inside, watched)
        },
        StmtView::Labeled { body, .. } => orderly_stmt(*body, bound, watched),
        StmtView::Try { body, catch, finally } => {
            &&& orderly(body, bound, watched)
            &&& match catch {
                Some(c) => orderly(
                    c.body,
                    match c.param {
                        Some(p) => bound.insert(p.0),
                        None => bound,
                    },
                    watched,
                ),
                None => true,
            }
            &&& match finally {
                Some(b) => orderly(b, bound, watched),
                None => true,
            }
        },
        StmtView::Switch { discriminant, cases } => uses_bound(discriminant, bound, watched)
            && orderly_cases(cases, bound, watched),
        _ => true,
    }
}

pub open spec fn orderly_cases(
    v: Seq<CaseView>,
    bound: Set<LocalId>,
    watched: Set<LocalId>,
) -> bool
    decreases v, 0nat,
{
    forall|i: int|
        0 <= i < v.len() ==> opt_uses_bound((#[trigger] v[i]).test, bound, watched) && orderly(
            v[i].body,
            bound,
            watched,
        )
}

/// Whether the statements use each watched variable behind the let that binds it.
pub open spec fn orderly(v: Seq<StmtView>, bound: Set<LocalId>, watched: Set<LocalId>) -> bool
    decreases v, v.len(),
{
    if v.len() == 0 {
        true
    } else {
        orderly(v.drop_last(), bound, watched) && orderly_stmt(
            v.last(),
            bound_after(v.drop_last(), bound),
            watched,
        )
    }
}

proof fn lemma_orderly_cases(v: Seq<CaseView>, bound: Set<LocalId>, watched: Set<LocalId>)
    ensures
        orderly_cases(v, bound, watched) == forall|i: int|
            0 <= i < v.len() ==> opt_uses_bound((#[trigger] v[i]).test, bound, watched) && orderly(
                v[i].body,
                bound,
                watched,
            ),
{
}

pub proof fn lemma_orderly_push(
    v: Seq<StmtView>,
    s: StmtView,
    bound: Set<LocalId>,
    watched: Set<LocalId>,
)
    ensures
        orderly(v.push(s), bound, watched) == (orderly(v, bound, watched) && orderly_stmt(
            s,
            bound_after(v, bound),
            watched,
        )),
        bound_after(v.push(s), bound) == bound_behind(s, bound_after(v, bound)),
{
    assert(v.push(s).drop_last() =~= v);
    assert(v.push(s).last() == s);
}

pub proof fn lemma_orderly_one(s: StmtView, bound: Set<LocalId>, watched: Set<LocalId>)
    ensures
        orderly(seq![s], bound, watched) == orderly_stmt(s, bound, watched),
        bound_after(seq![s], bound) == bound_behind(s, bound),
{
    let none = Seq::<StmtView>::empty();
    assert(seq![s] =~= none.push(s));
    lemma_orderly_push(none, s, bound, watched);
    assert(orderly(none, bound, watched));
    assert(bound_after(none, bound) == bound);
}

/// Statements behind others have what those bind at hand.
pub proof fn lemma_orderly_concat(
    a: Seq<StmtView>,
    b: Seq<StmtView>,
    bound: Set<LocalId>,
    watched: Set<LocalId>,
)
    requires
        orderly(a, bound, watched),
        orderly(b, bound_after(a, bound), watched),
    ensures
        orderly(a + b, bound, watched),
        bound_after(a + b, bound) == bound_after(b, bound_after(a, bound)),
    decreases b.len(),
{
    if b.len() == 0 {
        assert(a + b =~= a);
    } else {
        let front = b.drop_last();
        lemma_orderly_concat(a, front, bound, watched);
        assert((a + b).drop_last() =~= a + front);
        assert((a + b).last() == b.last());
    }
}

pub proof fn lemma_bound_grows(v: Seq<StmtView>, bound: Set<LocalId>)
    ensures
        bound.subset_of(bound_after(v, bound)),
    decreases v.len(),
{
    if v.len() > 0 {
        lemma_bound_grows(v.drop_last(), bound);
    }
}

pub proof fn lemma_uses_more(
    e: ExprView,
    bound: Set<LocalId>,
    more: Set<LocalId>,
    watched: Set<LocalId>,
)
    requires
        uses_bound(e, bound, watched),
        bound.subset_of(more),
    ensures
        uses_bound(e, more, watched),
{
    assert forall|x: LocalId| #[trigger] watched.contains(x) && !more.contains(x) implies free(
        e,
        x,
    ) by {
        assert(!bound.contains(x));
    }
}

/// Whether the expression names none of the watched variables.
pub open spec fn unwatched(e: ExprView, watched: Set<LocalId>) -> bool {
    forall|x: LocalId| #[trigger] watched.contains(x) ==> free(e, x)
}

pub open spec fn stmts_unwatched(v: Seq<StmtView>, watched: Set<LocalId>) -> bool {
    forall|x: LocalId| #[trigger] watched.contains(x) ==> stmts_free(v, x)
}

pub open spec fn stmt_unwatched(s: StmtView, watched: Set<LocalId>) -> bool {
    forall|x: LocalId| #[trigger] watched.contains(x) ==> stmt_free(s, x)
}

pub proof fn lemma_unwatched_each(v: Seq<StmtView>, watched: Set<LocalId>, i: int)
    requires
        stmts_unwatched(v, watched),
        0 <= i < v.len(),
    ensures
        stmt_unwatched(v[i], watched),
{
    assert forall|x: LocalId| #[trigger] watched.contains(x) implies stmt_free(v[i], x) by {
        lemma_stmts_free(v, x);
    }
}

proof fn lemma_unwatched_front(v: Seq<StmtView>, watched: Set<LocalId>)
    requires
        stmts_unwatched(v, watched),
        v.len() > 0,
    ensures
        stmts_unwatched(v.drop_last(), watched),
        stmt_unwatched(v.last(), watched),
{
    assert forall|x: LocalId| #[trigger] watched.contains(x) implies stmts_free(
        v.drop_last(),
        x,
    ) && stmt_free(v.last(), x) by {
        lemma_stmts_free_front(v, x);
    }
}

pub proof fn lemma_unwatched_parts(s: StmtView, watched: Set<LocalId>)
    requires
        stmt_unwatched(s, watched),
    ensures
        forall|x: LocalId| #[trigger] watched.contains(x) ==> parts_free_of(s, x),
{
    assert forall|x: LocalId| #[trigger] watched.contains(x) implies parts_free_of(s, x) by {
        lemma_stmt_has(s, NodeTest::Names(x));
    }
}

/// Statements that name no watched variable are orderly.
pub proof fn lemma_unwatched_orderly(v: Seq<StmtView>, bound: Set<LocalId>, watched: Set<LocalId>)
    requires
        stmts_unwatched(v, watched),
    ensures
        orderly(v, bound, watched),
    decreases v, v.len(),
{
    if v.len() > 0 {
        lemma_unwatched_front(v, watched);
        lemma_unwatched_orderly(v.drop_last(), bound, watched);
        assert(v.last() == v[v.len() - 1]);
        lemma_unwatched_orderly_stmt(
            v[v.len() - 1],
            bound_after(v.drop_last(), bound),
            watched,
        );
    }
}

pub proof fn lemma_unwatched_orderly_stmt(s: StmtView, bound: Set<LocalId>, watched: Set<LocalId>)
    requires
        stmt_unwatched(s, watched),
    ensures
        orderly_stmt(s, bound, watched),
    decreases s, 0nat,
{
    lemma_unwatched_parts(s, watched);
    match s {
        StmtView::If { then_branch, else_branch, .. } => {
            lemma_unwatched_orderly(then_branch, bound, watched);
            match else_branch {
                Some(b) => lemma_unwatched_orderly(b, bound, watched),
                None => {},
            }
        },
        StmtView::While { body, .. } => lemma_unwatched_orderly(body, bound, watched),
        StmtView::DoWhile { body, .. } => lemma_unwatched_orderly(body, bound, watched),
        StmtView::For { init, body, .. } => {
            let inside = match init {
                Some(i) => {
                    lemma_unwatched_orderly_stmt(*i, bound, watched);
                    bound_behind(*i, bound)
                },
                None => bound,
            };
            lemma_unwatched_orderly(body, inside, watched);
        },
        StmtView::Labeled { body, .. } => lemma_unwatched_orderly_stmt(*body, bound, watched),
        StmtView::Try { body, catch, finally } => {
            lemma_unwatched_orderly(body, bound, watched);
            match catch {
                Some(c) => lemma_unwatched_orderly(
                    c.body,
                    match c.param {
                        Some(p) => bound.insert(p.0),
                        None => bound,
                    },
                    watched,
                ),
                None => {},
            }
            match finally {
                Some(b) => lemma_unwatched_orderly(b, bound, watched),
                None => {},
            }
        },
        StmtView::Switch { cases, .. } => {
            lemma_orderly_cases(cases, bound, watched);
            assert forall|i: int| 0 <= i < cases.len() implies opt_uses_bound(
                (#[trigger] cases[i]).test,
                bound,
                watched,
            ) && orderly(cases[i].body, bound, watched) by {
                assert forall|x: LocalId| #[trigger] watched.contains(x) implies !opt_expr_has(
                    cases[i].test,
                    NodeTest::Names(x),
                ) && stmts_free(cases[i].body, x) by {
                    lemma_cases_lack(cases, NodeTest::Names(x));
                }
                lemma_unwatched_orderly(cases[i].body, bound, watched);
            }
        },
        _ => {},
    }
}

// ---------------------------------------------------------------------------
// A callee in its caller
// ---------------------------------------------------------------------------

/// Whether what stands for the variable of the callee may be named where `bound` is
/// bound in the caller and `seen` of the callee's own variables are in the callee.
pub open spec fn fits(
    y: LocalId,
    m: Map<LocalId, ExprView>,
    own: Set<LocalId>,
    seen: Set<LocalId>,
    bound: Set<LocalId>,
    watched: Set<LocalId>,
) -> bool {
    ||| uses_bound(m[y], bound, watched)
    ||| {
        &&& own.contains(y)
        &&& m[y] is LocalGet
        &&& seen.contains(y) ==> bound.contains(remap(y, m))
    }
}

pub open spec fn all_fit(
    m: Map<LocalId, ExprView>,
    own: Set<LocalId>,
    seen: Set<LocalId>,
    bound: Set<LocalId>,
    watched: Set<LocalId>,
) -> bool {
    forall|y: LocalId| #[trigger] m.contains_key(y) ==> fits(y, m, own, seen, bound, watched)
}

/// An expression of the callee that uses its own variables behind their lets names
/// only what is bound once the caller's text is put in.
pub proof fn lemma_expr_fits(
    e: ExprView,
    m: Map<LocalId, ExprView>,
    own: Set<LocalId>,
    seen: Set<LocalId>,
    bound: Set<LocalId>,
    watched: Set<LocalId>,
)
    requires
        unwatched(e, watched),
        uses_bound(e, seen, own),
        all_fit(m, own, seen, bound, watched),
    ensures
        uses_bound(rewrite_expr(e, Rewrite::Locals(m)), bound, watched),
{
    let out = rewrite_expr(e, Rewrite::Locals(m));
    assert forall|x: LocalId| #[trigger] watched.contains(x) && !bound.contains(x) implies free(
        out,
        x,
    ) by {
        let w = Map::new(
            |y: LocalId| m.contains_key(y) && free(m[y], x),
            |y: LocalId| m[y],
        );
        assert forall|y: LocalId| #[trigger] differ(m, w, y) implies free(e, y) by {
            assert(m.contains_key(y) && !free(m[y], x));
            assert(fits(y, m, own, seen, bound, watched));
            lemma_local_free(remap(y, m), x);
            assert(own.contains(y) && !seen.contains(y));
        }
        lemma_agree(e, m, w);
        assert(values_free(w, x));
        lemma_rewrite_free(e, Rewrite::Locals(w), x);
    }
}

proof fn lemma_opt_fits(
    o: Option<ExprView>,
    m: Map<LocalId, ExprView>,
    own: Set<LocalId>,
    seen: Set<LocalId>,
    bound: Set<LocalId>,
    watched: Set<LocalId>,
)
    requires
        forall|x: LocalId| #[trigger]
            watched.contains(x) ==> !opt_expr_has(o, NodeTest::Names(x)),
        opt_uses_bound(o, seen, own),
        all_fit(m, own, seen, bound, watched),
    ensures
        o matches Some(e) ==> uses_bound(rewrite_expr(e, Rewrite::Locals(m)), bound, watched),
{
    match o {
        Some(e) => lemma_expr_fits(e, m, own, seen, bound, watched),
        None => {},
    }
}

/// One more let on both sides.
proof fn lemma_fits_behind(
    s: StmtView,
    m: Map<LocalId, ExprView>,
    own: Set<LocalId>,
    seen: Set<LocalId>,
    bound: Set<LocalId>,
    watched: Set<LocalId>,
)
    requires
        all_fit(m, own, seen, bound, watched),
    ensures
        all_fit(
            m,
            own,
            bound_behind(s, seen),
            bound_behind(rewrite_stmt(s, Rewrite::Locals(m)), bound),
            watched,
        ),
{
    let more = bound_behind(rewrite_stmt(s, Rewrite::Locals(m)), bound);
    assert forall|y: LocalId| #[trigger] m.contains_key(y) implies fits(
        y,
        m,
        own,
        bound_behind(s, seen),
        more,
        watched,
    ) by {
        assert(fits(y, m, own, seen, bound, watched));
        if uses_bound(m[y], bound, watched) {
            lemma_uses_more(m[y], bound, more, watched);
        }
    }
}

/// The body of a callee with simple control flow, in its caller.
pub proof fn lemma_stmts_fit(
    v: Seq<StmtView>,
    m: Map<LocalId, ExprView>,
    own: Set<LocalId>,
    seen: Set<LocalId>,
    bound: Set<LocalId>,
    watched: Set<LocalId>,
)
    requires
        stmts_unwatched(v, watched),
        orderly(v, seen, own),
        all_fit(m, own, seen, bound, watched),
    ensures
        orderly(rewrite_stmts(v, Rewrite::Locals(m)), bound, watched),
        all_fit(
            m,
            own,
            bound_after(v, seen),
            bound_after(rewrite_stmts(v, Rewrite::Locals(m)), bound),
            watched,
        ),
    decreases v, v.len(),
{
    let r = Rewrite::Locals(m);
    let out = rewrite_stmts(v, r);
    if v.len() > 0 {
        let front = v.drop_last();
        lemma_unwatched_front(v, watched);
        lemma_stmts_fit(front, m, own, seen, bound, watched);
        assert(out.drop_last() =~= rewrite_stmts(front, r));
        assert(v.last() == v[v.len() - 1]);
        assert(out.last() == rewrite_stmt(v.last(), r));
        let seen1 = bound_after(front, seen);
        let bound1 = bound_after(rewrite_stmts(front, r), bound);
        lemma_stmt_fits(v[v.len() - 1], m, own, seen1, bound1, watched);
        lemma_fits_behind(v.last(), m, own, seen1, bound1, watched);
    }
}

proof fn lemma_stmt_fits(
    s: StmtView,
    m: Map<LocalId, ExprView>,
    own: Set<LocalId>,
    seen: Set<LocalId>,
    bound: Set<LocalId>,
    watched: Set<LocalId>,
)
    requires
        stmt_unwatched(s, watched),
        orderly_stmt(s, seen, own),
        all_fit(m, own, seen, bound, watched),
    ensures
        orderly_stmt(rewrite_stmt(s, Rewrite::Locals(m)), bound, watched),
    decreases s, 0nat,
{
    let r = Rewrite::Locals(m);
    lemma_unwatched_parts(s, watched);
    match s {
        StmtView::Let { init, .. } => lemma_opt_fits(init, m, own, seen, bound, watched),
        StmtView::Expr(e) => lemma_expr_fits(e, m, own, seen, bound, watched),
        StmtView::Return(o) => lemma_opt_fits(o, m, own, seen, bound, watched),
        StmtView::Throw(e) => lemma_expr_fits(e, m, own, seen, bound, watched),
        StmtView::If { condition, then_branch, else_branch } => {
            lemma_expr_fits(condition, m, own, seen, bound, watched);
            lemma_stmts_fit(then_branch, m, own, seen, bound, watched);
            match else_branch {
                Some(b) => lemma_stmts_fit(b, m, own, seen, bound, watched),
                None => {},
            }
        },
        StmtView::While { condition, body } => {
            lemma_expr_fits(condition, m, own, seen, bound, watched);
            lemma_stmts_fit(body, m, own, seen, bound, watched);
        },
        StmtView::DoWhile { body, condition } => {
            lemma_expr_fits(condition, m, own, seen, bound, watched);
            lemma_stmts_fit(body, m, own, seen, bound, watched);
        },
        StmtView::For { init, condition, update, body } => {
            let (seen1, bound1) = match init {
                Some(i) => {
                    lemma_stmt_fits(*i, m, own, seen, bound, watched);
                    lemma_fits_behind(*i, m, own, seen, bound, watched);
                    (bound_behind(*i, seen), bound_behind(rewrite_stmt(*i, r), bound))
                },
                None => (seen, bound),
            };
            lemma_opt_fits(condition, m, own, seen1, bound1, watched);
            lemma_opt_fits(update, m, own, seen1, bound1, watched);
            lemma_stmts_fit(body, m, own, seen1, bound1, watched);
        },
        StmtView::Labeled { body, .. } => lemma_stmt_fits(*body, m, own, seen, bound, watched),
        StmtView::Try { body, catch, finally } => {
            lemma_stmts_fit(body, m, own, seen, bound, watched);
            match catch {
                Some(c) => match c.param {
                    Some(p) => {
                        let l = StmtView::Let {
                            id: p.0,
                            name: p.1,
                            ty: TypeView::Any,
                            mutable: false,
                            init: None,
                        };
                        lemma_fits_behind(l, m, own, seen, bound, watched);
                        lemma_stmts_fit(
                            c.body,
                            m,
                            own,
                            seen.insert(p.0),
                            bound.insert(remap(p.0, m)),
                            watched,
                        );
                    },
                    None => lemma_stmts_fit(c.body, m, own, seen, bound, watched),
                },
                None => {},
            }
            match finally {
                Some(b) => lemma_stmts_fit(b, m, own, seen, bound, watched),
                None => {},
            }
        },
        StmtView::Switch { discriminant, cases } => {
            lemma_expr_fits(discriminant, m, own, seen, bound, watched);
            let out = rewrite_cases(cases, r);
            lemma_orderly_cases(cases, seen, own);
            lemma_orderly_cases(out, bound, watched);
            assert forall|i: int| 0 <= i < out.len() implies opt_uses_bound(
                (#[trigger] out[i]).test,
                bound,
                watched,
            ) && orderly(out[i].body, bound, watched) by {
                assert forall|x: LocalId| #[trigger] watched.contains(x) implies !opt_expr_has(
                    cases[i].test,
                    NodeTest::Names(x),
                ) && stmts_free(cases[i].body, x) by {
                    lemma_cases_lack(cases, NodeTest::Names(x));
                }
                assert(opt_uses_bound(cases[i].test, seen, own));
                lemma_opt_fits(cases[i].test, m, own, seen, bound, watched);
                lemma_stmts_fit(cases[i].body, m, own, seen, bound, watched);
            }
        },
        _ => {},
    }
}

// ---------------------------------------------------------------------------
// The receiver
// ---------------------------------------------------------------------------

pub proof fn lemma_this_uses_bound(
    e: ExprView,
    obj: LocalId,
    bound: Set<LocalId>,
    watched: Set<LocalId>,
)
    requires
        uses_bound(e, bound, watched),
        watched.contains(obj) ==> bound.contains(obj),
    ensures
        uses_bound(rewrite_expr(e, Rewrite::This(obj)), bound, watched),
{
    assert forall|x: LocalId| #[trigger] watched.contains(x) && !bound.contains(x) implies free(
        rewrite_expr(e, Rewrite::This(obj)),
        x,
    ) by {
        lemma_rewrite_free(e, Rewrite::This(obj), x);
    }
}

proof fn lemma_this_opt_uses_bound(
    o: Option<ExprView>,
    obj: LocalId,
    bound: Set<LocalId>,
    watched: Set<LocalId>,
)
    requires
        opt_uses_bound(o, bound, watched),
        watched.contains(obj) ==> bound.contains(obj),
    ensures
        o matches Some(e) ==> uses_bound(rewrite_expr(e, Rewrite::This(obj)), bound, watched),
{
    match o {
        Some(e) => lemma_this_uses_bound(e, obj, bound, watched),
        None => {},
    }
}

/// A receiver that is bound, if it is watched, may stand for `this`.
pub proof fn lemma_this_orderly(
    v: Seq<StmtView>,
    obj: LocalId,
    bound: Set<LocalId>,
    watched: Set<LocalId>,
)
    requires
        orderly(v, bound, watched),
        watched.contains(obj) ==> bound.contains(obj),
    ensures
        orderly(rewrite_stmts(v, Rewrite::This(obj)), bound, watched),
        bound_after(rewrite_stmts(v, Rewrite::This(obj)), bound) == bound_after(v, bound),
    decreases v, v.len(),
{
    let r = Rewrite::This(obj);
    let out = rewrite_stmts(v, r);
    if v.len() > 0 {
        let front = v.drop_last();
        lemma_this_orderly(front, obj, bound, watched);
        assert(out.drop_last() =~= rewrite_stmts(front, r));
        assert(v.last() == v[v.len() - 1]);
        assert(out.last() == rewrite_stmt(v.last(), r));
        lemma_bound_grows(front, bound);
        lemma_this_orderly_stmt(v[v.len() - 1], obj, bound_after(front, bound), watched);
    }
}

proof fn lemma_this_orderly_stmt(
    s: StmtView,
    obj: LocalId,
    bound: Set<LocalId>,
    watched: Set<LocalId>,
)
    requires
        orderly_stmt(s, bound, watched),
        watched.contains(obj) ==> bound.contains(obj),
    ensures
        orderly_stmt(rewrite_stmt(s, Rewrite::This(obj)), bound, watched),
    decreases s, 0nat,
{
    let r = Rewrite::This(obj);
    match s {
        StmtView::Let { init, .. } => lemma_this_opt_uses_bound(init, obj, bound, watched),
        StmtView::Expr(e) => lemma_this_uses_bound(e, obj, bound, watched),
        StmtView::Return(o) => lemma_this_opt_uses_bound(o, obj, bound, watched),
        StmtView::Throw(e) => lemma_this_uses_bound(e, obj, bound, watched),
        StmtView::If { condition, then_branch, else_branch } => {
            lemma_this_uses_bound(condition, obj, bound, watched);
            lemma_this_orderly(then_branch, obj, bound, watched);
            match else_branch {
                Some(b) => lemma_this_orderly(b, obj, bound, watched),
                None => {},
            }
        },
        StmtView::While { condition, body } => {
            lemma_this_uses_bound(condition, obj, bound, watched);
            lemma_this_orderly(body, obj, bound, watched);
        },
        StmtView::DoWhile { body, condition } => {
            lemma_this_uses_bound(condition, obj, bound, watched);
            lemma_this_orderly(body, obj, bound, watched);
        },
        StmtView::For { init, condition, update, body } => {
            let inside = match init {
                Some(i) => {
                    lemma_this_orderly_stmt(*i, obj, bound, watched);
                    bound_behind(*i, bound)
                },
                None => bound,
            };
            lemma_this_opt_uses_bound(condition, obj, inside, watched);
            lemma_this_opt_uses_bound(update, obj, inside, watched);
            lemma_this_orderly(body, obj, inside, watched);
        },
        StmtView::Labeled { body, .. } => lemma_this_orderly_stmt(*body, obj, bound, watched),
        StmtView::Try { body, catch, finally } => {
            lemma_this_orderly(body, obj, bound, watched);
            match catch {
                Some(c) => lemma_this_orderly(
                    c.body,
                    obj,
                    match c.param {
                        Some(p) => bound.insert(p.0),
                        None => bound,
                    },
                    watched,
                ),
                None => {},
            }
            match finally {
                Some(b) => lemma_this_orderly(b, obj, bound, watched),
                None => {},
            }
        },
        StmtView::Switch { discriminant, cases } => {
            lemma_this_uses_bound(discriminant, obj, bound, watched);
            let out = rewrite_cases(cases, r);
            lemma_orderly_cases(cases, bound, watched);
            lemma_orderly_cases(out, bound, watched);
            assert forall|i: int| 0 <= i < out.len() implies opt_uses_bound(
                (#[trigger] out[i]).test,
                bound,
                watched,
            ) && orderly(out[i].body, bound, watched) by {
                assert(opt_uses_bound(cases[i].test, bound, watched));
                lemma_this_opt_uses_bound(cases[i].test, obj, bound, watched);
                lemma_this_orderly(cases[i].body, obj, bound, watched);
            }
        },
        _ => {},
    }
}

} // verus!

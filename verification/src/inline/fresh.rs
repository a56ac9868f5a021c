//! Inlining names no variable anew but fresh ones.
//!
//! Everything here is about one id that a module does not name: it stays unnamed
//! through substitution, through the expansion of a call, and through the pass.

use crate::hir::{FuncId, LocalId};
use crate::inline::candidate::{bound_ids, is_trivial};
use crate::inline::expand::{
    argument_let, argument_lets, args_of, bind_args, bind_fresh, call_map, callee_of, find_method,
    full_call, last_return, lemma_rename_fresh_grows, mapped_lets, method_expr, pairs, rename_fresh,
    simple_call, void_stmts, CalleeView, CandidatesView,
};
use crate::inline::scan::{
    cases_have, expr_has, expr_test, lemma_cases_lack, lemma_expr_lacks, lemma_stmt_has,
    lemma_stmts_lack, opt_expr_has, param_ids, stmt_has, stmts_have, NodeTest,
};
use crate::model::{CaseView, ExprView, FunctionView, ParamView, StmtView};
use crate::rebuild::{lemma_children_of_rebuilt, with_children};
use crate::rewrite::{
    is_imul_call, kept_captures, remap, renamed, replacement, rewrite_cases, rewrite_children,
    rewrite_closure, rewrite_expr, rewrite_params, rewrite_stmt, rewrite_stmts, with_capture,
    Rewrite,
};
use crate::rewrite_laws::lemma_closure_children;
use crate::shape::member_of_local;
use crate::walk::{children, lemma_children_smaller};
use vstd::prelude::*;

verus! {

/// Whether the expression does not name the id.
pub open spec fn free(e: ExprView, x: LocalId) -> bool {
    !expr_has(e, NodeTest::Names(x))
}

/// Whether the statements do not name the id.
pub open spec fn stmts_free(v: Seq<StmtView>, x: LocalId) -> bool {
    !stmts_have(v, NodeTest::Names(x))
}

/// Whether the statement does not name the id.
pub open spec fn stmt_free(s: StmtView, x: LocalId) -> bool {
    !stmt_has(s, NodeTest::Names(x))
}

// ---------------------------------------------------------------------------
// One step at a time
// ---------------------------------------------------------------------------

/// Whether the parts of an expression, and the node itself, do not name the id.
pub open spec fn parts_free(e: ExprView, x: LocalId) -> bool {
    &&& !expr_test(e, NodeTest::Names(x))
    &&& forall|i: int| 0 <= i < children(e).len() ==> free(#[trigger] children(e)[i], x)
    &&& match e {
        ExprView::Closure { body, .. } => stmts_free(body, x),
        _ => true,
    }
}

pub proof fn lemma_free(e: ExprView, x: LocalId)
    ensures
        free(e, x) == parts_free(e, x),
{
    lemma_expr_lacks(e, NodeTest::Names(x));
}

pub proof fn lemma_stmts_free(v: Seq<StmtView>, x: LocalId)
    ensures
        stmts_free(v, x) == (forall|i: int|
            0 <= i < v.len() ==> stmt_free(#[trigger] v[i], x)),
{
    lemma_stmts_lack(v, NodeTest::Names(x));
}

pub proof fn lemma_stmts_free_concat(a: Seq<StmtView>, b: Seq<StmtView>, x: LocalId)
    requires
        stmts_free(a, x),
        stmts_free(b, x),
    ensures
        stmts_free(a + b, x),
{
    lemma_stmts_free(a, x);
    lemma_stmts_free(b, x);
    lemma_stmts_free(a + b, x);
    assert forall|i: int| 0 <= i < (a + b).len() implies stmt_free(#[trigger] (a + b)[i], x) by {
        if i < a.len() {
            assert((a + b)[i] == a[i]);
        } else {
            assert((a + b)[i] == b[i - a.len()]);
        }
    }
}

pub proof fn lemma_stmts_free_push(a: Seq<StmtView>, s: StmtView, x: LocalId)
    requires
        stmts_free(a, x),
        stmt_free(s, x),
    ensures
        stmts_free(a.push(s), x),
{
    lemma_stmts_free(a, x);
    lemma_stmts_free(a.push(s), x);
    assert forall|i: int| 0 <= i < a.push(s).len() implies stmt_free(
        #[trigger] a.push(s)[i],
        x,
    ) by {
        if i < a.len() {
            assert(a.push(s)[i] == a[i]);
        }
    }
}

pub proof fn lemma_stmts_free_front(v: Seq<StmtView>, x: LocalId)
    requires
        v.len() > 0,
        stmts_free(v, x),
    ensures
        stmts_free(v.drop_last(), x),
        stmt_free(v.last(), x),
{
    lemma_stmts_free(v, x);
    lemma_stmts_free(v.drop_last(), x);
    assert forall|i: int| 0 <= i < v.drop_last().len() implies stmt_free(
        #[trigger] v.drop_last()[i],
        x,
    ) by {
        assert(v.drop_last()[i] == v[i]);
    }
    assert(v.last() == v[v.len() - 1]);
}

/// A node that names nothing itself stays so with other children.
pub proof fn lemma_rebuilt_free(e: ExprView, kids: Seq<ExprView>, x: LocalId)
    requires
        !(e is Closure),
        kids.len() == children(e).len(),
        !expr_test(e, NodeTest::Names(x)),
        forall|i: int| 0 <= i < kids.len() ==> free(#[trigger] kids[i], x),
    ensures
        free(with_children(e, kids), x),
{
    let r = with_children(e, kids);
    lemma_children_of_rebuilt(e, kids);
    assert(!expr_test(r, NodeTest::Names(x)));
    lemma_free(r, x);
}

// ---------------------------------------------------------------------------
// Substitution
// ---------------------------------------------------------------------------

/// Whether no expression that stands for a variable names the id.
pub open spec fn values_free(m: Map<LocalId, ExprView>, x: LocalId) -> bool {
    forall|id: LocalId| m.contains_key(id) ==> free(#[trigger] m[id], x)
}

/// Whether the rewrite brings in no name of the id.
pub open spec fn harmless(r: Rewrite, x: LocalId) -> bool {
    match r {
        Rewrite::Locals(m) => values_free(m, x),
        Rewrite::This(obj) => obj != x,
        Rewrite::Imul(_) => false,
        Rewrite::State(_) => false,
    }
}

pub proof fn lemma_local_free(id: LocalId, x: LocalId)
    ensures
        free(ExprView::LocalGet(id), x) == (id != x),
{
    lemma_free(ExprView::LocalGet(id), x);
}

proof fn lemma_remap_free(id: LocalId, m: Map<LocalId, ExprView>, x: LocalId)
    requires
        harmless(Rewrite::Locals(m), x),
        id != x,
    ensures
        remap(id, m) != x,
{
    if m.contains_key(id) {
        assert(free(m[id], x));
        lemma_local_free(remap(id, m), x);
    }
}

proof fn lemma_captures_free(ids: Seq<LocalId>, m: Map<LocalId, ExprView>, x: LocalId)
    requires
        harmless(Rewrite::Locals(m), x),
        !ids.contains(x),
    ensures
        !kept_captures(ids, m).contains(x),
    decreases ids.len(),
{
    if ids.len() > 0 {
        assert(ids[ids.len() - 1] == ids.last());
        assert(!ids.drop_last().contains(x)) by {
            assert forall|i: int| 0 <= i < ids.drop_last().len() implies ids.drop_last()[i]
                != x by {
                assert(ids[i] == ids.drop_last()[i]);
            }
        }
        lemma_captures_free(ids.drop_last(), m, x);
        lemma_remap_free(ids.last(), m, x);
        let front = kept_captures(ids.drop_last(), m);
        let all = kept_captures(ids, m);
        assert forall|i: int| 0 <= i < all.len() implies all[i] != x by {
            if i < front.len() {
                assert(all[i] == front[i]);
            }
        }
    }
}

pub proof fn lemma_rewrite_free(e: ExprView, r: Rewrite, x: LocalId)
    requires
        free(e, x),
        harmless(r, x),
    ensures
        free(rewrite_expr(e, r), x),
    decreases e, 1nat,
{
    lemma_free(e, x);
    if replacement(e, r) is Some {
        match r {
            Rewrite::This(obj) => lemma_local_free(obj, x),
            _ => {},
        }
    } else if e is Closure {
        lemma_rewrite_closure_free(e, r, x);
    } else {
        let base = renamed(e, r);
        match r {
            Rewrite::Locals(m) => match e {
                ExprView::LocalSet(id, _) => lemma_remap_free(id, m, x),
                ExprView::Update { id, .. } => lemma_remap_free(id, m, x),
                ExprView::LocalCall { id, .. } => lemma_remap_free(id, m, x),
                _ => {},
            },
            _ => {},
        }
        let kids = rewrite_children(e, r);
        assert(children(base) == children(e));
        assert forall|i: int| 0 <= i < kids.len() implies free(#[trigger] kids[i], x) by {
            lemma_children_smaller(e, i);
            lemma_rewrite_free(children(e)[i], r, x);
        }
        lemma_rebuilt_free(base, kids, x);
    }
}

proof fn lemma_rewrite_closure_free(e: ExprView, r: Rewrite, x: LocalId)
    requires
        e is Closure,
        free(e, x),
        harmless(r, x),
    ensures
        free(rewrite_closure(e, r), x),
    decreases e, 0nat,
{
    lemma_free(e, x);
    match e {
        ExprView::Closure { params, body, captures, mutable_captures, .. } => {
            let out = rewrite_closure(e, r);
            lemma_rewrite_stmts_free(body, r, x);
            lemma_closure_children(e, r);
            assert(param_ids(rewrite_params(params, r)) =~= param_ids(params));
            assert forall|i: int| 0 <= i < children(out).len() implies free(
                #[trigger] children(out)[i],
                x,
            ) by {
                lemma_children_smaller(e, i);
                lemma_rewrite_free(children(e)[i], r, x);
            }
            match r {
                Rewrite::Locals(m) => {
                    lemma_captures_free(captures, m, x);
                    lemma_captures_free(mutable_captures, m, x);
                },
                Rewrite::This(obj) => {
                    let all = with_capture(captures, obj);
                    assert(!all.contains(x)) by {
                        assert forall|i: int| 0 <= i < all.len() implies all[i] != x by {
                            if i < captures.len() {
                                assert(all[i] == captures[i]);
                            }
                        }
                    }
                },
                _ => {},
            }
            lemma_free(out, x);
        },
        _ => {},
    }
}

proof fn lemma_rewrite_stmts_free(v: Seq<StmtView>, r: Rewrite, x: LocalId)
    requires
        stmts_free(v, x),
        harmless(r, x),
    ensures
        stmts_free(rewrite_stmts(v, r), x),
    decreases v, 0nat,
{
    let out = rewrite_stmts(v, r);
    lemma_stmts_free(v, x);
    lemma_stmts_free(out, x);
    assert forall|i: int| 0 <= i < out.len() implies stmt_free(#[trigger] out[i], x) by {
        lemma_rewrite_stmt_free(v[i], r, x);
    }
}

proof fn lemma_rewrite_stmt_free(s: StmtView, r: Rewrite, x: LocalId)
    requires
        stmt_free(s, x),
        harmless(r, x),
    ensures
        stmt_free(rewrite_stmt(s, r), x),
    decreases s, 0nat,
{
    let t = NodeTest::Names(x);
    lemma_stmt_has(s, t);
    lemma_stmt_has(rewrite_stmt(s, r), t);
    match s {
        StmtView::Let { id, init, .. } => {
            match r {
                Rewrite::Locals(m) => lemma_remap_free(id, m, x),
                _ => {},
            }
            match init {
                Some(e) => lemma_rewrite_free(e, r, x),
                None => {},
            }
        },
        StmtView::Expr(e) => lemma_rewrite_free(e, r, x),
        StmtView::Return(Some(e)) => lemma_rewrite_free(e, r, x),
        StmtView::Throw(e) => lemma_rewrite_free(e, r, x),
        StmtView::If { condition, then_branch, else_branch } => {
            lemma_rewrite_free(condition, r, x);
            lemma_rewrite_stmts_free(then_branch, r, x);
            match else_branch {
                Some(b) => lemma_rewrite_stmts_free(b, r, x),
                None => {},
            }
        },
        StmtView::While { condition, body } => {
            lemma_rewrite_free(condition, r, x);
            lemma_rewrite_stmts_free(body, r, x);
        },
        StmtView::For { init, condition, update, body } => {
            match init {
                Some(i) => lemma_rewrite_stmt_free(*i, r, x),
                None => {},
            }
            match condition {
                Some(e) => lemma_rewrite_free(e, r, x),
                None => {},
            }
            match update {
                Some(e) => lemma_rewrite_free(e, r, x),
                None => {},
            }
            lemma_rewrite_stmts_free(body, r, x);
        },
        StmtView::DoWhile { body, condition } => {
            lemma_rewrite_free(condition, r, x);
            lemma_rewrite_stmts_free(body, r, x);
        },
        StmtView::Labeled { body, .. } => lemma_rewrite_stmt_free(*body, r, x),
        StmtView::Try { body, catch, finally } => {
            lemma_rewrite_stmts_free(body, r, x);
            match catch {
                Some(c) => {
                    lemma_rewrite_stmts_free(c.body, r, x);
                    match (c.param, r) {
                        (Some((id, _)), Rewrite::Locals(m)) => lemma_remap_free(id, m, x),
                        _ => {},
                    }
                },
                None => {},
            }
            match finally {
                Some(b) => lemma_rewrite_stmts_free(b, r, x),
                None => {},
            }
        },
        StmtView::Switch { discriminant, cases } => {
            lemma_rewrite_free(discriminant, r, x);
            lemma_rewrite_cases_free(cases, r, x);
        },
        _ => {},
    }
}

proof fn lemma_rewrite_cases_free(v: Seq<CaseView>, r: Rewrite, x: LocalId)
    requires
        !cases_have(v, NodeTest::Names(x)),
        harmless(r, x),
    ensures
        !cases_have(rewrite_cases(v, r), NodeTest::Names(x)),
    decreases v, 0nat,
{
    let t = NodeTest::Names(x);
    let out = rewrite_cases(v, r);
    lemma_cases_lack(v, t);
    lemma_cases_lack(out, t);
    assert forall|i: int| 0 <= i < out.len() implies !opt_expr_has((#[trigger] out[i]).test, t)
        && !stmts_have(out[i].body, t) by {
        assert(!opt_expr_has(v[i].test, t) && !stmts_have(v[i].body, t));
        match v[i].test {
            Some(e) => lemma_rewrite_free(e, r, x),
            None => {},
        }
        lemma_rewrite_stmts_free(v[i].body, r, x);
    }
}

// ---------------------------------------------------------------------------
// Multiplications
// ---------------------------------------------------------------------------

proof fn lemma_imul_free(e: ExprView, ids: Set<FuncId>, x: LocalId)
    ensures
        free(rewrite_expr(e, Rewrite::Imul(ids)), x) == free(e, x),
    decreases e, 0nat,
{
    let r = Rewrite::Imul(ids);
    let out = rewrite_expr(e, r);
    let kids = rewrite_children(e, r);
    lemma_free(e, x);
    lemma_free(out, x);
    assert forall|i: int| 0 <= i < kids.len() implies free(#[trigger] kids[i], x) == free(
        children(e)[i],
        x,
    ) by {
        lemma_children_smaller(e, i);
        lemma_imul_free(children(e)[i], ids, x);
    }
    if is_imul_call(e, ids) {
        lemma_free(children(e)[0], x);
        assert forall|i: int| 0 <= i < children(out).len() implies #[trigger] children(out)[i]
            == kids[i + 1] by {}
        if parts_free(out, x) {
            assert forall|i: int| 0 <= i < children(e).len() implies free(
                #[trigger] children(e)[i],
                x,
            ) by {
                if i > 0 {
                    assert(children(out)[i - 1] == kids[i]);
                }
            }
        }
        if parts_free(e, x) {
            assert forall|i: int| 0 <= i < children(out).len() implies free(
                #[trigger] children(out)[i],
                x,
            ) by {
                assert(free(kids[i + 1], x) == free(children(e)[i + 1], x));
            }
        }
    } else {
        if e is Closure {
            lemma_closure_children(e, r);
            match e {
                ExprView::Closure { params, body, .. } => {
                    lemma_imul_stmts_free(body, ids, x);
                    assert(param_ids(rewrite_params(params, r)) =~= param_ids(params));
                },
                _ => {},
            }
        } else {
            lemma_children_of_rebuilt(e, kids);
        }
        if parts_free(out, x) {
            assert forall|i: int| 0 <= i < children(e).len() implies free(
                #[trigger] children(e)[i],
                x,
            ) by {
                assert(children(out)[i] == kids[i]);
            }
        }
    }
}

proof fn lemma_imul_opt_free(o: Option<ExprView>, ids: Set<FuncId>, x: LocalId)
    ensures
        o matches Some(e) ==> free(rewrite_expr(e, Rewrite::Imul(ids)), x) == free(e, x),
    decreases o, 0nat,
{
    match o {
        Some(e) => lemma_imul_free(e, ids, x),
        None => {},
    }
}

pub proof fn lemma_imul_stmts_free(v: Seq<StmtView>, ids: Set<FuncId>, x: LocalId)
    ensures
        stmts_free(rewrite_stmts(v, Rewrite::Imul(ids)), x) == stmts_free(v, x),
    decreases v, 0nat,
{
    let r = Rewrite::Imul(ids);
    let out = rewrite_stmts(v, r);
    lemma_stmts_free(v, x);
    lemma_stmts_free(out, x);
    assert forall|i: int| 0 <= i < v.len() implies stmt_free(#[trigger] v[i], x) == stmt_free(
        out[i],
        x,
    ) by {
        lemma_imul_stmt_free(v[i], ids, x);
    }
    if stmts_free(out, x) {
        assert forall|i: int| 0 <= i < v.len() implies stmt_free(#[trigger] v[i], x) by {
            assert(stmt_free(out[i], x));
        }
    }
    if stmts_free(v, x) {
        assert forall|i: int| 0 <= i < out.len() implies stmt_free(#[trigger] out[i], x) by {
            assert(stmt_free(v[i], x));
        }
    }
}

/// Whether neither the test nor the body of the case names the id.
spec fn case_free(c: CaseView, x: LocalId) -> bool {
    !opt_expr_has(c.test, NodeTest::Names(x)) && stmts_free(c.body, x)
}

proof fn lemma_imul_cases_free(v: Seq<CaseView>, ids: Set<FuncId>, x: LocalId)
    ensures
        cases_have(rewrite_cases(v, Rewrite::Imul(ids)), NodeTest::Names(x)) == cases_have(
            v,
            NodeTest::Names(x),
        ),
    decreases v, 0nat,
{
    let t = NodeTest::Names(x);
    let r = Rewrite::Imul(ids);
    let out = rewrite_cases(v, r);
    lemma_cases_lack(v, t);
    lemma_cases_lack(out, t);
    assert forall|i: int| 0 <= i < v.len() implies case_free(#[trigger] v[i], x) == case_free(
        out[i],
        x,
    ) by {
        lemma_imul_opt_free(v[i].test, ids, x);
        lemma_imul_stmts_free(v[i].body, ids, x);
    }
    if !cases_have(out, t) {
        assert forall|i: int| 0 <= i < v.len() implies case_free(#[trigger] v[i], x) by {
            assert(case_free(out[i], x));
        }
    }
    if !cases_have(v, t) {
        assert forall|i: int| 0 <= i < out.len() implies case_free(#[trigger] out[i], x) by {
            assert(case_free(v[i], x));
        }
    }
}

proof fn lemma_imul_stmt_free(s: StmtView, ids: Set<FuncId>, x: LocalId)
    ensures
        stmt_free(rewrite_stmt(s, Rewrite::Imul(ids)), x) == stmt_free(s, x),
    decreases s, 0nat,
{
    let t = NodeTest::Names(x);
    let r = Rewrite::Imul(ids);
    lemma_stmt_has(s, t);
    lemma_stmt_has(rewrite_stmt(s, r), t);
    match s {
        StmtView::Let { init, .. } => lemma_imul_opt_free(init, ids, x),
        StmtView::Expr(e) => lemma_imul_free(e, ids, x),
        StmtView::Return(o) => lemma_imul_opt_free(o, ids, x),
        StmtView::Throw(e) => lemma_imul_free(e, ids, x),
        StmtView::If { condition, then_branch, else_branch } => {
            lemma_imul_free(condition, ids, x);
            lemma_imul_stmts_free(then_branch, ids, x);
            match else_branch {
                Some(b) => lemma_imul_stmts_free(b, ids, x),
                None => {},
            }
        },
        StmtView::While { condition, body } => {
            lemma_imul_free(condition, ids, x);
            lemma_imul_stmts_free(body, ids, x);
        },
        StmtView::DoWhile { body, condition } => {
            lemma_imul_free(condition, ids, x);
            lemma_imul_stmts_free(body, ids, x);
        },
        StmtView::For { init, condition, update, body } => {
            match init {
                Some(i) => lemma_imul_stmt_free(*i, ids, x),
                None => {},
            }
            lemma_imul_opt_free(condition, ids, x);
            lemma_imul_opt_free(update, ids, x);
            lemma_imul_stmts_free(body, ids, x);
        },
        StmtView::Labeled { body, .. } => lemma_imul_stmt_free(*body, ids, x),
        StmtView::Try { body, catch, finally } => {
            lemma_imul_stmts_free(body, ids, x);
            match catch {
                Some(c) => lemma_imul_stmts_free(c.body, ids, x),
                None => {},
            }
            match finally {
                Some(b) => lemma_imul_stmts_free(b, ids, x),
                None => {},
            }
        },
        StmtView::Switch { discriminant, cases } => {
            lemma_imul_free(discriminant, ids, x);
            lemma_imul_cases_free(cases, ids, x);
        },
        _ => {},
    }
}

// ---------------------------------------------------------------------------
// A single call
// ---------------------------------------------------------------------------

/// Whether no candidate names the id in its body.
pub open spec fn candidates_free(c: CandidatesView, x: LocalId) -> bool {
    &&& forall|id: FuncId|
        c.funcs.contains_key(id) ==> stmts_free((#[trigger] c.funcs[id]).body, x)
    &&& forall|i: int|
        0 <= i < c.methods.len() ==> stmts_free((#[trigger] c.methods[i]).1.body, x)
}

pub open spec fn all_free(v: Seq<ExprView>, x: LocalId) -> bool {
    forall|i: int| 0 <= i < v.len() ==> free(#[trigger] v[i], x)
}

proof fn lemma_insert_free(m: Map<LocalId, ExprView>, id: LocalId, e: ExprView, x: LocalId)
    requires
        values_free(m, x),
        free(e, x),
    ensures
        values_free(m.insert(id, e), x),
{
    let m1 = m.insert(id, e);
    assert forall|k: LocalId| m1.contains_key(k) implies free(#[trigger] m1[k], x) by {
        if k != id {
            assert(free(m[k], x));
        }
    }
}

proof fn lemma_bind_args_free(params: Seq<ParamView>, args: Seq<ExprView>, k: nat, x: LocalId)
    requires
        k <= args.len(),
        all_free(args, x),
    ensures
        values_free(bind_args(params, args, k), x),
    decreases k,
{
    if k > 0 {
        lemma_bind_args_free(params, args, (k - 1) as nat, x);
        lemma_insert_free(
            bind_args(params, args, (k - 1) as nat),
            params[k - 1].id,
            args[k - 1],
            x,
        );
    }
}

proof fn lemma_bind_fresh_free(
    params: Seq<ParamView>,
    args: Seq<ExprView>,
    k: nat,
    n: nat,
    x: LocalId,
)
    requires
        k <= args.len(),
        all_free(args, x),
        x < n,
        bind_fresh(params, args, k, n).1 <= u32::MAX,
    ensures
        values_free(bind_fresh(params, args, k, n).0, x),
        stmts_free(argument_lets(params, args, k, n), x),
        n <= bind_fresh(params, args, k, n).1,
    decreases k,
{
    if k > 0 {
        lemma_bind_fresh_free(params, args, (k - 1) as nat, n, x);
        let (m, n1) = bind_fresh(params, args, (k - 1) as nat, n);
        let front = argument_lets(params, args, (k - 1) as nat, n);
        if is_trivial(args[k - 1]) {
            lemma_insert_free(m, params[k - 1].id, args[k - 1], x);
        } else {
            let id = n1 as LocalId;
            lemma_local_free(id, x);
            lemma_insert_free(m, params[k - 1].id, ExprView::LocalGet(id), x);
            let s = argument_let(id, params[k - 1], args[k - 1]);
            lemma_stmt_has(s, NodeTest::Names(x));
            lemma_stmts_free_push(front, s, x);
        }
    } else {
        lemma_stmts_free(argument_lets(params, args, k, n), x);
    }
}

proof fn lemma_mapped_lets_free(
    params: Seq<ParamView>,
    args: Seq<ExprView>,
    k: nat,
    m: Map<LocalId, ExprView>,
    x: LocalId,
)
    requires
        k <= args.len(),
        all_free(args, x),
        values_free(m, x),
    ensures
        stmts_free(mapped_lets(params, args, k, m), x),
    decreases k,
{
    if k > 0 {
        lemma_mapped_lets_free(params, args, (k - 1) as nat, m, x);
        let p = params[k - 1];
        if !is_trivial(args[k - 1]) && m.contains_key(p.id) && m[p.id] is LocalGet {
            let id = remap(p.id, m);
            assert(free(m[p.id], x));
            lemma_local_free(id, x);
            let s = argument_let(id, p, args[k - 1]);
            lemma_stmt_has(s, NodeTest::Names(x));
            lemma_stmts_free_push(mapped_lets(params, args, (k - 1) as nat, m), s, x);
        }
    } else {
        lemma_stmts_free(mapped_lets(params, args, k, m), x);
    }
}

proof fn lemma_rename_free(ids: Seq<LocalId>, m: Map<LocalId, ExprView>, n: nat, x: LocalId)
    requires
        values_free(m, x),
        x < n,
        rename_fresh(ids, m, n).1 <= u32::MAX,
    ensures
        values_free(rename_fresh(ids, m, n).0, x),
        n <= rename_fresh(ids, m, n).1,
    decreases ids.len(),
{
    if ids.len() > 0 {
        lemma_rename_free(ids.drop_last(), m, n, x);
        let (m1, n1) = rename_fresh(ids.drop_last(), m, n);
        if !m1.contains_key(ids.last()) {
            lemma_local_free(n1 as LocalId, x);
            lemma_insert_free(m1, ids.last(), ExprView::LocalGet(n1 as LocalId), x);
        }
    }
}

proof fn lemma_call_map_free(f: FunctionView, args: Seq<ExprView>, n: nat, x: LocalId)
    requires
        all_free(args, x),
        x < n,
        call_map(f, args, n).1 <= u32::MAX,
    ensures
        values_free(call_map(f, args, n).0, x),
        stmts_free(argument_lets(f.params, args, pairs(f.params, args), n), x),
        n <= call_map(f, args, n).1,
{
    let k = pairs(f.params, args);
    let (m, n1) = bind_fresh(f.params, args, k, n);
    lemma_rename_fresh_grows(bound_ids(f.body), 0, m, n1);
    lemma_bind_fresh_free(f.params, args, k, n, x);
    lemma_rename_free(bound_ids(f.body), m, n1, x);
}

proof fn lemma_find_method_free(
    methods: Seq<(Seq<char>, FunctionView)>,
    class: Seq<char>,
    name: Seq<char>,
    x: LocalId,
)
    requires
        forall|i: int|
            0 <= i < methods.len() ==> stmts_free((#[trigger] methods[i]).1.body, x),
    ensures
        find_method(methods, class, name) matches Some(f) ==> stmts_free(f.body, x),
    decreases methods.len(),
{
    if methods.len() > 0 {
        assert(methods[methods.len() - 1] == methods.last());
        let front = methods.drop_last();
        assert forall|i: int| 0 <= i < front.len() implies stmts_free(
            (#[trigger] front[i]).1.body,
            x,
        ) by {
            assert(front[i] == methods[i]);
        }
        lemma_find_method_free(front, class, name, x);
    }
}

/// What a call calls, and what it is called with, does not name the id either.
proof fn lemma_callee_free(
    e: ExprView,
    c: CandidatesView,
    types: Map<LocalId, Seq<char>>,
    x: LocalId,
)
    requires
        free(e, x),
        candidates_free(c, x),
    ensures
        all_free(args_of(e), x),
        match callee_of(e, c, types) {
            Some(CalleeView::Function(f)) => stmts_free(f.body, x),
            Some(CalleeView::Method(obj, f)) => obj != x && stmts_free(f.body, x),
            None => true,
        },
{
    match e {
        ExprView::Call { callee, args, .. } => {
            lemma_free(e, x);
            assert(children(e)[0] == *callee);
            assert forall|i: int| 0 <= i < args.len() implies free(#[trigger] args[i], x) by {
                assert(children(e)[i + 1] == args[i]);
            }
            lemma_free(*callee, x);
            match *callee {
                ExprView::PropertyGet { object, .. } => {
                    assert(children(*callee)[0] == *object);
                    lemma_free(*object, x);
                },
                _ => {},
            }
            match member_of_local(*callee) {
                Some((obj, name)) => lemma_find_method_free(c.methods, types[obj], name, x),
                None => {},
            }
        },
        _ => {},
    }
}

proof fn lemma_method_expr_free(e: ExprView, m: Map<LocalId, ExprView>, obj: LocalId, x: LocalId)
    requires
        free(e, x),
        values_free(m, x),
        obj != x,
    ensures
        free(method_expr(e, m, obj), x),
{
    lemma_rewrite_free(e, Rewrite::Locals(m), x);
    lemma_rewrite_free(rewrite_expr(e, Rewrite::Locals(m)), Rewrite::This(obj), x);
}

proof fn lemma_void_free(v: Seq<StmtView>, m: Map<LocalId, ExprView>, obj: LocalId, x: LocalId)
    requires
        stmts_free(v, x),
        values_free(m, x),
        obj != x,
    ensures
        void_stmts(v, m, obj) matches Some(out) ==> stmts_free(out, x),
    decreases v.len(),
{
    let t = NodeTest::Names(x);
    if v.len() > 0 {
        lemma_stmts_free_front(v, x);
        lemma_void_free(v.drop_last(), m, obj, x);
        lemma_stmt_has(v.last(), t);
        match v.last() {
            StmtView::Expr(e) => {
                lemma_method_expr_free(e, m, obj, x);
                let s = StmtView::Expr(method_expr(e, m, obj));
                lemma_stmt_has(s, t);
                match void_stmts(v.drop_last(), m, obj) {
                    Some(front) => lemma_stmts_free_push(front, s, x),
                    None => {},
                }
            },
            _ => {},
        }
    } else {
        lemma_stmts_free(Seq::empty(), x);
    }
}

proof fn lemma_last_return_free(v: Seq<StmtView>, x: LocalId)
    requires
        stmts_free(v, x),
    ensures
        last_return(v) matches Some(e) ==> free(e, x),
{
    if v.len() > 0 {
        lemma_stmts_free_front(v, x);
        lemma_stmt_has(v.last(), NodeTest::Names(x));
    }
}

pub proof fn lemma_simple_free(
    e: ExprView,
    c: CandidatesView,
    types: Map<LocalId, Seq<char>>,
    n: nat,
    x: LocalId,
)
    requires
        free(e, x),
        candidates_free(c, x),
        x < n,
        simple_call(e, c, types, n) is Some,
        simple_call(e, c, types, n)->0.next <= u32::MAX,
    ensures
        stmts_free(simple_call(e, c, types, n)->0.setup, x),
        free(simple_call(e, c, types, n)->0.result, x),
        n <= simple_call(e, c, types, n)->0.next,
{
    let args = args_of(e);
    lemma_callee_free(e, c, types, x);
    lemma_stmts_free(Seq::empty(), x);
    match callee_of(e, c, types) {
        Some(CalleeView::Function(f)) => {
            lemma_last_return_free(f.body, x);
            let value = last_return(f.body)->0;
            let k = pairs(f.params, args);
            if f.body.len() == 1 {
                lemma_bind_args_free(f.params, args, k, x);
                lemma_rewrite_free(value, Rewrite::Locals(bind_args(f.params, args, k)), x);
            } else {
                lemma_call_map_free(f, args, n, x);
                let (m, _) = call_map(f, args, n);
                lemma_stmts_free_front(f.body, x);
                lemma_mapped_lets_free(f.params, args, k, m, x);
                lemma_rewrite_stmts_free(f.body.drop_last(), Rewrite::Locals(m), x);
                lemma_stmts_free_concat(
                    mapped_lets(f.params, args, k, m),
                    rewrite_stmts(f.body.drop_last(), Rewrite::Locals(m)),
                    x,
                );
                lemma_rewrite_free(value, Rewrite::Locals(m), x);
            }
        },
        Some(CalleeView::Method(obj, f)) => {
            let k = pairs(f.params, args);
            let m = bind_args(f.params, args, k);
            lemma_bind_args_free(f.params, args, k, x);
            if f.body.len() == 1 && last_return(f.body) is Some {
                lemma_last_return_free(f.body, x);
                lemma_method_expr_free(last_return(f.body)->0, m, obj, x);
            } else {
                lemma_void_free(f.body, m, obj, x);
                lemma_free(ExprView::Undefined, x);
            }
        },
        None => {},
    }
}

pub proof fn lemma_full_free(
    e: ExprView,
    c: CandidatesView,
    types: Map<LocalId, Seq<char>>,
    n: nat,
    x: LocalId,
)
    requires
        free(e, x),
        candidates_free(c, x),
        x < n,
    ensures
        full_call(e, c, types, n) matches Some((body, next)) ==> next <= u32::MAX ==> {
            &&& stmts_free(body, x)
            &&& n <= next
        },
{
    let args = args_of(e);
    lemma_callee_free(e, c, types, x);
    match callee_of(e, c, types) {
        Some(CalleeView::Function(f)) => {
            let (m, next) = call_map(f, args, n);
            if next <= u32::MAX {
                lemma_call_map_free(f, args, n, x);
                lemma_rewrite_stmts_free(f.body, Rewrite::Locals(m), x);
                lemma_stmts_free_concat(
                    argument_lets(f.params, args, pairs(f.params, args), n),
                    rewrite_stmts(f.body, Rewrite::Locals(m)),
                    x,
                );
            }
        },
        Some(CalleeView::Method(obj, f)) => {
            let (m, next) = call_map(f, args, n);
            if next <= u32::MAX {
                lemma_call_map_free(f, args, n, x);
                let body = rewrite_stmts(f.body, Rewrite::Locals(m));
                lemma_rewrite_stmts_free(f.body, Rewrite::Locals(m), x);
                lemma_rewrite_stmts_free(body, Rewrite::This(obj), x);
                lemma_stmts_free_concat(
                    argument_lets(f.params, args, pairs(f.params, args), n),
                    rewrite_stmts(body, Rewrite::This(obj)),
                    x,
                );
            }
        },
        None => {},
    }
}

} // verus!

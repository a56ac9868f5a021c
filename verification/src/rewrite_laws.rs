//! What holds of rewrites in general.

use crate::hir::{FuncId, IntrinsicOp, LocalId, LocalOp, UpdateOp};
use crate::inline::scan::{
    cases_have, expr_has, expr_test, lemma_cases_lack, lemma_expr_lacks, lemma_stmt_has,
    lemma_stmts_lack, opt_expr_has, stmt_has, stmts_have, NodeTest,
};
use crate::model::{CaseView, ExprView, ParamView, StmtView, TypeView};
use crate::rebuild::{lemma_children_of_rebuilt, lemma_rebuild_same};
use crate::rewrite::{
    is_imul_call, kept_captures, remap, replacement, reshaped, rewrite_cases, rewrite_children,
    rewrite_closure, rewrite_expr, rewrite_params, rewrite_stmt, rewrite_stmts, state_set,
    with_capture, Rewrite,
};
use crate::walk::{children, lemma_children_smaller, param_defaults};
use vstd::prelude::*;

verus! {

// ---------------------------------------------------------------------------
// Closures
// ---------------------------------------------------------------------------

proof fn lemma_defaults_rewritten(params: Seq<ParamView>, r: Rewrite)
    ensures
        param_defaults(rewrite_params(params, r)).len() == param_defaults(params).len(),
        forall|i: int|
            0 <= i < param_defaults(params).len() ==> #[trigger] param_defaults(
                rewrite_params(params, r),
            )[i] == rewrite_expr(param_defaults(params)[i], r),
    decreases params.len(),
{
    if params.len() > 0 {
        let front = params.drop_last();
        lemma_defaults_rewritten(front, r);
        assert(rewrite_params(params, r).drop_last() =~= rewrite_params(front, r));
        assert(params.last() == params[params.len() - 1]);
    }
}

/// The children of a closure after a rewrite are its children, rewritten.
pub proof fn lemma_closure_children(e: ExprView, r: Rewrite)
    requires
        e is Closure,
    ensures
        children(rewrite_closure(e, r)) == rewrite_children(e, r),
{
    match e {
        ExprView::Closure { params, .. } => {
            lemma_defaults_rewritten(params, r);
            assert(children(rewrite_closure(e, r)) =~= rewrite_children(e, r));
        },
        _ => {},
    }
}

// ---------------------------------------------------------------------------
// Rewrites with nothing to replace
// ---------------------------------------------------------------------------

/// Whether the rewrite has nothing to replace.
pub open spec fn idle(r: Rewrite) -> bool {
    match r {
        Rewrite::Locals(m) => m == Map::<LocalId, ExprView>::empty(),
        Rewrite::This(_) => false,
        Rewrite::Imul(ids) => ids == Set::<FuncId>::empty(),
        Rewrite::State(reg) => reg == Map::<LocalId, Seq<char>>::empty(),
    }
}

proof fn lemma_idle_captures(ids: Seq<LocalId>, m: Map<LocalId, ExprView>)
    requires
        idle(Rewrite::Locals(m)),
    ensures
        kept_captures(ids, m) == ids,
    decreases ids.len(),
{
    if ids.len() > 0 {
        lemma_idle_captures(ids.drop_last(), m);
        assert(ids.drop_last().push(ids.last()) =~= ids);
    } else {
        assert(kept_captures(ids, m) =~= ids);
    }
}

/// A rewrite that has nothing to replace leaves every expression as it is.
pub proof fn law_idle_rewrite_keeps_expr(e: ExprView, r: Rewrite)
    requires
        idle(r),
    ensures
        rewrite_expr(e, r) == e,
    decreases e, 1nat,
{
    if e is Closure {
        lemma_idle_closure(e, r);
    } else {
        assert forall|i: int| 0 <= i < children(e).len() implies rewrite_children(e, r)[i]
            == #[trigger] children(e)[i] by {
            lemma_children_smaller(e, i);
            law_idle_rewrite_keeps_expr(children(e)[i], r);
        }
        assert(rewrite_children(e, r) =~= children(e));
        lemma_rebuild_same(e);
    }
}

proof fn lemma_idle_closure(e: ExprView, r: Rewrite)
    requires
        idle(r),
        e is Closure,
    ensures
        rewrite_closure(e, r) == e,
    decreases e, 0nat,
{
    match e {
        ExprView::Closure { params, body, captures, mutable_captures, .. } => {
            law_idle_rewrite_keeps_stmts(body, r);
            lemma_idle_params(params, r);
            match r {
                Rewrite::Locals(m) => {
                    lemma_idle_captures(captures, m);
                    lemma_idle_captures(mutable_captures, m);
                },
                _ => {},
            }
        },
        _ => {},
    }
}

pub proof fn lemma_idle_params(v: Seq<ParamView>, r: Rewrite)
    requires
        idle(r),
    ensures
        rewrite_params(v, r) == v,
    decreases v, 0nat,
{
    assert forall|i: int| 0 <= i < v.len() implies rewrite_params(v, r)[i] == #[trigger] v[i] by {
        match v[i].default {
            Some(e) => law_idle_rewrite_keeps_expr(e, r),
            None => {},
        }
    }
    assert(rewrite_params(v, r) =~= v);
}

/// A rewrite that has nothing to replace leaves all statements as they are.
pub proof fn law_idle_rewrite_keeps_stmts(v: Seq<StmtView>, r: Rewrite)
    requires
        idle(r),
    ensures
        rewrite_stmts(v, r) == v,
    decreases v, 0nat,
{
    assert forall|i: int| 0 <= i < v.len() implies rewrite_stmts(v, r)[i] == #[trigger] v[i] by {
        lemma_idle_stmt(v[i], r);
    }
    assert(rewrite_stmts(v, r) =~= v);
}

proof fn lemma_idle_cases(v: Seq<CaseView>, r: Rewrite)
    requires
        idle(r),
    ensures
        rewrite_cases(v, r) == v,
    decreases v, 0nat,
{
    assert forall|i: int| 0 <= i < v.len() implies rewrite_cases(v, r)[i] == #[trigger] v[i] by {
        match v[i].test {
            Some(e) => law_idle_rewrite_keeps_expr(e, r),
            None => {},
        }
        law_idle_rewrite_keeps_stmts(v[i].body, r);
    }
    assert(rewrite_cases(v, r) =~= v);
}

proof fn lemma_idle_stmt(s: StmtView, r: Rewrite)
    requires
        idle(r),
    ensures
        rewrite_stmt(s, r) == s,
    decreases s, 0nat,
{
    match s {
        StmtView::Let { init: Some(e), .. } => law_idle_rewrite_keeps_expr(e, r),
        StmtView::Expr(e) => law_idle_rewrite_keeps_expr(e, r),
        StmtView::Return(Some(e)) => law_idle_rewrite_keeps_expr(e, r),
        StmtView::Throw(e) => law_idle_rewrite_keeps_expr(e, r),
        StmtView::If { condition, then_branch, else_branch } => {
            law_idle_rewrite_keeps_expr(condition, r);
            law_idle_rewrite_keeps_stmts(then_branch, r);
            match else_branch {
                Some(b) => law_idle_rewrite_keeps_stmts(b, r),
                None => {},
            }
        },
        StmtView::While { condition, body } => {
            law_idle_rewrite_keeps_expr(condition, r);
            law_idle_rewrite_keeps_stmts(body, r);
        },
        StmtView::DoWhile { body, condition } => {
            law_idle_rewrite_keeps_expr(condition, r);
            law_idle_rewrite_keeps_stmts(body, r);
        },
        StmtView::For { init, condition, update, body } => {
            match init {
                Some(i) => lemma_idle_stmt(*i, r),
                None => {},
            }
            match condition {
                Some(e) => law_idle_rewrite_keeps_expr(e, r),
                None => {},
            }
            match update {
                Some(e) => law_idle_rewrite_keeps_expr(e, r),
                None => {},
            }
            law_idle_rewrite_keeps_stmts(body, r);
        },
        StmtView::Labeled { body, .. } => lemma_idle_stmt(*body, r),
        StmtView::Try { body, catch, finally } => {
            law_idle_rewrite_keeps_stmts(body, r);
            match catch {
                Some(c) => law_idle_rewrite_keeps_stmts(c.body, r),
                None => {},
            }
            match finally {
                Some(b) => law_idle_rewrite_keeps_stmts(b, r),
                None => {},
            }
        },
        StmtView::Switch { discriminant, cases } => {
            law_idle_rewrite_keeps_expr(discriminant, r);
            lemma_idle_cases(cases, r);
        },
        _ => {},
    }
}

// ---------------------------------------------------------------------------
// Rewrites that leave nothing of what they replace
// ---------------------------------------------------------------------------

/// Whether what the rewrite puts in is nothing that it replaces.
pub open spec fn settles(r: Rewrite) -> bool {
    !(r is Locals)
}

/// What the rewrite replaces, where it settles.
pub open spec fn target(r: Rewrite) -> NodeTest {
    match r {
        Rewrite::Locals(_) => NodeTest::NeedsThis,
        Rewrite::This(_) => NodeTest::NeedsThis,
        Rewrite::Imul(ids) => NodeTest::CallsImul(ids),
        Rewrite::State(reg) => NodeTest::SetsState(reg),
    }
}

/// A rewrite makes no function reference, and no variable but the receiver, of
/// something else.
proof fn lemma_name_kept(e: ExprView, r: Rewrite)
    requires
        settles(r),
        rewrite_expr(e, r) is FuncRef || (rewrite_expr(e, r) is LocalGet && !(r is This)),
    ensures
        rewrite_expr(e, r) == e,
{
    if !(e is Closure) {
        lemma_rebuild_same(e);
    }
}

/// The callee of a call stays what it was, as far as the rewrite goes by it.
proof fn lemma_call_kept(e: ExprView, r: Rewrite)
    requires
        settles(r),
        e is Call,
    ensures
        !expr_test(reshaped(e, r, rewrite_children(e, r)), target(r)),
{
    let once = reshaped(e, r, rewrite_children(e, r));
    match e {
        ExprView::Call { callee, args, .. } => {
            let kids = rewrite_children(e, r);
            assert(children(e)[0] == *callee);
            assert(kids[0] == rewrite_expr(*callee, r));
            assert(kids.skip(1).len() == args.len());
            match r {
                Rewrite::Imul(ids) => {
                    if kids[0] is FuncRef {
                        lemma_name_kept(*callee, r);
                    }
                },
                Rewrite::State(reg) => {
                    match *callee {
                        ExprView::PropertyGet { object, property } => {
                            assert(children(*callee)[0] == *object);
                            assert(rewrite_children(*callee, r)[0] == rewrite_expr(*object, r));
                            if rewrite_expr(*object, r) is LocalGet {
                                lemma_name_kept(*object, r);
                            }
                        },
                        _ => {},
                    }
                },
                _ => {},
            }
        },
        _ => {},
    }
}

/// After the rewrite nothing of what it replaces is left in the expression, closures
/// with their bodies and defaults included: no `this`, and no closure that captures it,
/// once a variable stands for it; no call of a multiplication; no `set` of a state
/// variable.
pub proof fn law_nothing_is_left(e: ExprView, r: Rewrite)
    requires
        settles(r),
    ensures
        !expr_has(rewrite_expr(e, r), target(r)),
    decreases e, 1nat,
{
    let t = target(r);
    let once = rewrite_expr(e, r);
    let kids = rewrite_children(e, r);
    assert forall|i: int| 0 <= i < kids.len() implies !expr_has(#[trigger] kids[i], t) by {
        lemma_children_smaller(e, i);
        law_nothing_is_left(children(e)[i], r);
    }
    lemma_expr_lacks(once, t);
    if replacement(e, r) is Some {
    } else if e is Closure {
        lemma_closure_children(e, r);
        match e {
            ExprView::Closure { body, .. } => law_nothing_is_left_in_stmts(body, r),
            _ => {},
        }
    } else {
        if e is Call {
            lemma_call_kept(e, r);
        }
        match r {
            Rewrite::Imul(ids) => {
                if is_imul_call(e, ids) {
                    assert forall|i: int| 0 <= i < children(once).len() implies !expr_has(
                        #[trigger] children(once)[i],
                        t,
                    ) by {
                        assert(children(once)[i] == kids[i + 1]);
                    }
                } else {
                    lemma_children_of_rebuilt(e, kids);
                }
            },
            Rewrite::State(reg) => {
                match state_set(e, reg) {
                    Some(name) => {
                        lemma_expr_lacks(ExprView::String(name), t);
                        assert(!expr_has(kids[1], t));
                        assert(children(once)[0] == ExprView::String(name));
                        assert(children(once)[1] == kids[1]);
                    },
                    None => lemma_children_of_rebuilt(e, kids),
                }
            },
            _ => lemma_children_of_rebuilt(e, kids),
        }
    }
}

proof fn lemma_nothing_is_left_in_opt(o: Option<ExprView>, r: Rewrite)
    requires
        settles(r),
    ensures
        o matches Some(e) ==> !expr_has(rewrite_expr(e, r), target(r)),
    decreases o, 2nat,
{
    match o {
        Some(e) => law_nothing_is_left(e, r),
        None => {},
    }
}

/// The same of statements, of every form and at any depth.
pub proof fn law_nothing_is_left_in_stmts(v: Seq<StmtView>, r: Rewrite)
    requires
        settles(r),
    ensures
        !stmts_have(rewrite_stmts(v, r), target(r)),
    decreases v, 0nat,
{
    let out = rewrite_stmts(v, r);
    lemma_stmts_lack(out, target(r));
    assert forall|i: int| 0 <= i < out.len() implies !stmt_has(#[trigger] out[i], target(r)) by {
        lemma_nothing_is_left_in_stmt(v[i], r);
    }
}

proof fn lemma_nothing_is_left_in_cases(v: Seq<CaseView>, r: Rewrite)
    requires
        settles(r),
    ensures
        !cases_have(rewrite_cases(v, r), target(r)),
    decreases v, 0nat,
{
    let out = rewrite_cases(v, r);
    lemma_cases_lack(out, target(r));
    assert forall|i: int| 0 <= i < out.len() implies !opt_expr_has(
        (#[trigger] out[i]).test,
        target(r),
    ) && !stmts_have(out[i].body, target(r)) by {
        match v[i].test {
            Some(e) => law_nothing_is_left(e, r),
            None => {},
        }
        law_nothing_is_left_in_stmts(v[i].body, r);
    }
}

proof fn lemma_nothing_is_left_in_stmt(s: StmtView, r: Rewrite)
    requires
        settles(r),
    ensures
        !stmt_has(rewrite_stmt(s, r), target(r)),
    decreases s, 0nat,
{
    lemma_stmt_has(rewrite_stmt(s, r), target(r));
    match s {
        StmtView::Let { init: Some(e), .. } => law_nothing_is_left(e, r),
        StmtView::Expr(e) => law_nothing_is_left(e, r),
        StmtView::Return(Some(e)) => law_nothing_is_left(e, r),
        StmtView::Throw(e) => law_nothing_is_left(e, r),
        StmtView::If { condition, then_branch, else_branch } => {
            law_nothing_is_left(condition, r);
            law_nothing_is_left_in_stmts(then_branch, r);
            match else_branch {
                Some(b) => law_nothing_is_left_in_stmts(b, r),
                None => {},
            }
        },
        StmtView::While { condition, body } => {
            law_nothing_is_left(condition, r);
            law_nothing_is_left_in_stmts(body, r);
        },
        StmtView::DoWhile { body, condition } => {
            law_nothing_is_left(condition, r);
            law_nothing_is_left_in_stmts(body, r);
        },
        StmtView::For { init, condition, update, body } => {
            match init {
                Some(i) => lemma_nothing_is_left_in_stmt(*i, r),
                None => {},
            }
            lemma_nothing_is_left_in_opt(condition, r);
            lemma_nothing_is_left_in_opt(update, r);
            law_nothing_is_left_in_stmts(body, r);
        },
        StmtView::Labeled { body, .. } => lemma_nothing_is_left_in_stmt(*body, r),
        StmtView::Try { body, catch, finally } => {
            law_nothing_is_left_in_stmts(body, r);
            match catch {
                Some(c) => law_nothing_is_left_in_stmts(c.body, r),
                None => {},
            }
            match finally {
                Some(b) => law_nothing_is_left_in_stmts(b, r),
                None => {},
            }
        },
        StmtView::Switch { discriminant, cases } => {
            law_nothing_is_left(discriminant, r);
            lemma_nothing_is_left_in_cases(cases, r);
        },
        _ => {},
    }
}

/// A closure takes the variable that stands for `this` along, and `this` no more.
pub proof fn law_closure_takes_the_receiver(e: ExprView, obj: LocalId)
    requires
        e is Closure,
    ensures
        rewrite_expr(e, Rewrite::This(obj)) matches ExprView::Closure {
            captures,
            captures_this,
            ..
        } && captures.contains(obj) && !captures_this,
{
    match e {
        ExprView::Closure { captures, .. } => {
            let once = with_capture(captures, obj);
            if !captures.contains(obj) {
                assert(once[captures.len() as int] == obj);
            }
        },
        _ => {},
    }
}

/// Such a rewrite done twice is the same as done once.
pub proof fn law_rewrite_twice_is_once(e: ExprView, r: Rewrite)
    requires
        settles(r),
    ensures
        rewrite_expr(rewrite_expr(e, r), r) == rewrite_expr(e, r),
    decreases e, 1nat,
{
    let once = rewrite_expr(e, r);
    let kids = rewrite_children(e, r);
    if replacement(e, r) is Some {
        lemma_rebuild_same(once);
        assert(rewrite_children(once, r) =~= children(once));
    } else if e is Closure {
        lemma_twice_closure(e, r);
    } else {
        assert forall|i: int| 0 <= i < kids.len() implies rewrite_expr(#[trigger] kids[i], r)
            == kids[i] by {
            lemma_children_smaller(e, i);
            law_rewrite_twice_is_once(children(e)[i], r);
        }
        law_nothing_is_left(e, r);
        lemma_expr_lacks(once, target(r));
        lemma_rebuild_same(once);
        assert(!(once is Closure));
        assert forall|i: int| 0 <= i < children(once).len() implies rewrite_children(once, r)[i]
            == #[trigger] children(once)[i] by {
            if r matches Rewrite::Imul(ids) && is_imul_call(e, ids) {
                assert(children(once)[i] == kids[i + 1]);
            } else if r matches Rewrite::State(reg) && state_set(e, reg) is Some {
                if i == 0 {
                    let name = children(once)[0];
                    lemma_rebuild_same(name);
                    assert(rewrite_children(name, r) =~= children(name));
                } else {
                    assert(children(once)[i] == kids[1]);
                }
            } else {
                lemma_children_of_rebuilt(e, kids);
            }
        }
        assert(rewrite_children(once, r) =~= children(once));
    }
}

proof fn lemma_twice_closure(e: ExprView, r: Rewrite)
    requires
        settles(r),
        e is Closure,
    ensures
        rewrite_closure(rewrite_closure(e, r), r) == rewrite_closure(e, r),
    decreases e, 0nat,
{
    match e {
        ExprView::Closure { params, body, captures, .. } => {
            lemma_twice_stmts(body, r);
            lemma_twice_params(params, r);
            match r {
                Rewrite::This(obj) => {
                    let once = with_capture(captures, obj);
                    assert(once.contains(obj)) by {
                        if !captures.contains(obj) {
                            assert(once[captures.len() as int] == obj);
                        }
                    }
                },
                _ => {},
            }
        },
        _ => {},
    }
}

proof fn lemma_twice_params(v: Seq<ParamView>, r: Rewrite)
    requires
        settles(r),
    ensures
        rewrite_params(rewrite_params(v, r), r) == rewrite_params(v, r),
    decreases v, 0nat,
{
    let once = rewrite_params(v, r);
    assert forall|i: int| 0 <= i < v.len() implies rewrite_params(once, r)[i]
        == #[trigger] once[i] by {
        match v[i].default {
            Some(e) => law_rewrite_twice_is_once(e, r),
            None => {},
        }
    }
    assert(rewrite_params(once, r) =~= once);
}

proof fn lemma_twice_stmts(v: Seq<StmtView>, r: Rewrite)
    requires
        settles(r),
    ensures
        rewrite_stmts(rewrite_stmts(v, r), r) == rewrite_stmts(v, r),
    decreases v, 0nat,
{
    let once = rewrite_stmts(v, r);
    assert forall|i: int| 0 <= i < v.len() implies rewrite_stmts(once, r)[i]
        == #[trigger] once[i] by {
        lemma_twice_stmt(v[i], r);
    }
    assert(rewrite_stmts(once, r) =~= once);
}

proof fn lemma_twice_cases(v: Seq<CaseView>, r: Rewrite)
    requires
        settles(r),
    ensures
        rewrite_cases(rewrite_cases(v, r), r) == rewrite_cases(v, r),
    decreases v, 0nat,
{
    let once = rewrite_cases(v, r);
    assert forall|i: int| 0 <= i < v.len() implies rewrite_cases(once, r)[i]
        == #[trigger] once[i] by {
        match v[i].test {
            Some(e) => law_rewrite_twice_is_once(e, r),
            None => {},
        }
        lemma_twice_stmts(v[i].body, r);
    }
    assert(rewrite_cases(once, r) =~= once);
}

proof fn lemma_twice_stmt(s: StmtView, r: Rewrite)
    requires
        settles(r),
    ensures
        rewrite_stmt(rewrite_stmt(s, r), r) == rewrite_stmt(s, r),
    decreases s, 0nat,
{
    match s {
        StmtView::Let { init: Some(e), .. } => law_rewrite_twice_is_once(e, r),
        StmtView::Expr(e) => law_rewrite_twice_is_once(e, r),
        StmtView::Return(Some(e)) => law_rewrite_twice_is_once(e, r),
        StmtView::Throw(e) => law_rewrite_twice_is_once(e, r),
        StmtView::If { condition, then_branch, else_branch } => {
            law_rewrite_twice_is_once(condition, r);
            lemma_twice_stmts(then_branch, r);
            match else_branch {
                Some(b) => lemma_twice_stmts(b, r),
                None => {},
            }
        },
        StmtView::While { condition, body } => {
            law_rewrite_twice_is_once(condition, r);
            lemma_twice_stmts(body, r);
        },
        StmtView::DoWhile { body, condition } => {
            law_rewrite_twice_is_once(condition, r);
            lemma_twice_stmts(body, r);
        },
        StmtView::For { init, condition, update, body } => {
            match init {
                Some(i) => lemma_twice_stmt(*i, r),
                None => {},
            }
            match condition {
                Some(e) => law_rewrite_twice_is_once(e, r),
                None => {},
            }
            match update {
                Some(e) => law_rewrite_twice_is_once(e, r),
                None => {},
            }
            lemma_twice_stmts(body, r);
        },
        StmtView::Labeled { body, .. } => lemma_twice_stmt(*body, r),
        StmtView::Try { body, catch, finally } => {
            lemma_twice_stmts(body, r);
            match catch {
                Some(c) => lemma_twice_stmts(c.body, r),
                None => {},
            }
            match finally {
                Some(b) => lemma_twice_stmts(b, r),
                None => {},
            }
        },
        StmtView::Switch { discriminant, cases } => {
            law_rewrite_twice_is_once(discriminant, r);
            lemma_twice_cases(cases, r);
        },
        _ => {},
    }
}

// ---------------------------------------------------------------------------
// Captures
// ---------------------------------------------------------------------------

/// The captures of a closure go with its variables: one that a variable replaces is that
/// variable from then on, one that another expression replaces is captured no more, and
/// all others stay, in order.
pub proof fn law_captures_follow_the_variables(
    a: Seq<LocalId>,
    b: Seq<LocalId>,
    id: LocalId,
    m: Map<LocalId, ExprView>,
)
    ensures
        kept_captures(a + b, m) == kept_captures(a, m) + kept_captures(b, m),
        !m.contains_key(id) ==> kept_captures(seq![id], m) == seq![id],
        m.contains_key(id) ==> (m[id] matches ExprView::LocalGet(x) ==> kept_captures(seq![id], m)
            == seq![x]),
        m.contains_key(id) && !(m[id] is LocalGet) ==> kept_captures(seq![id], m).len() == 0,
    decreases b.len(),
{
    let one = seq![id];
    assert(one.drop_last() =~= Seq::empty());
    assert(one.last() == id);
    reveal_with_fuel(kept_captures, 2);
    assert(kept_captures(one, m) =~= if m.contains_key(id) && !(m[id] is LocalGet) {
        Seq::empty()
    } else {
        seq![remap(id, m)]
    });
    if b.len() == 0 {
        assert(a + b =~= a);
        assert(kept_captures(a, m) + kept_captures(b, m) =~= kept_captures(a, m));
    } else {
        law_captures_follow_the_variables(a, b.drop_last(), id, m);
        assert((a + b).drop_last() =~= a + b.drop_last());
        assert((a + b).last() == b.last());
        assert(kept_captures(a + b, m) =~= kept_captures(a, m) + kept_captures(b, m));
    }
}

/// A rewrite goes statement by statement: what becomes of a list is what becomes of its
/// parts, and a statement becomes one of the same kind.
pub proof fn law_rewrite_goes_statement_by_statement(
    a: Seq<StmtView>,
    b: Seq<StmtView>,
    s: StmtView,
    r: Rewrite,
)
    ensures
        rewrite_stmts(a, r).len() == a.len(),
        rewrite_stmts(a + b, r) == rewrite_stmts(a, r) + rewrite_stmts(b, r),
        s is Let <==> rewrite_stmt(s, r) is Let,
        s is Expr <==> rewrite_stmt(s, r) is Expr,
        s is Return <==> rewrite_stmt(s, r) is Return,
        s is Throw <==> rewrite_stmt(s, r) is Throw,
        s is If <==> rewrite_stmt(s, r) is If,
        s is While <==> rewrite_stmt(s, r) is While,
        s is DoWhile <==> rewrite_stmt(s, r) is DoWhile,
        s is For <==> rewrite_stmt(s, r) is For,
        s is Labeled <==> rewrite_stmt(s, r) is Labeled,
        s is Try <==> rewrite_stmt(s, r) is Try,
        s is Switch <==> rewrite_stmt(s, r) is Switch,
{
    assert(rewrite_stmts(a + b, r) =~= rewrite_stmts(a, r) + rewrite_stmts(b, r));
}

// ---------------------------------------------------------------------------
// What becomes of a call
// ---------------------------------------------------------------------------

/// A call of a multiplication becomes the built-in one of the same two arguments, in
/// order, each rewritten itself.
pub proof fn law_multiplication_keeps_its_operands(
    id: FuncId,
    a: ExprView,
    b: ExprView,
    types: Seq<TypeView>,
    ids: Set<FuncId>,
)
    requires
        ids.contains(id),
    ensures
        rewrite_expr(
            ExprView::Call {
                callee: Box::new(ExprView::FuncRef(id)),
                args: seq![a, b],
                type_args: types,
            },
            Rewrite::Imul(ids),
        ) == (ExprView::Intrinsic {
            op: IntrinsicOp::MathImul,
            args: seq![rewrite_expr(a, Rewrite::Imul(ids)), rewrite_expr(b, Rewrite::Imul(ids))],
        }),
{
    let r = Rewrite::Imul(ids);
    let e = ExprView::Call {
        callee: Box::new(ExprView::FuncRef(id)),
        args: seq![a, b],
        type_args: types,
    };
    let kids = rewrite_children(e, r);
    assert(children(e)[1] == a && children(e)[2] == b);
    assert(kids.skip(1) =~= seq![rewrite_expr(a, r), rewrite_expr(b, r)]);
}

/// `x.set(v)` of a state variable becomes `setText(name, v)` with the name of that
/// variable, and with `v` rewritten itself.
pub proof fn law_state_call_keeps_name_and_value(
    x: LocalId,
    v: ExprView,
    types: Seq<TypeView>,
    reg: Map<LocalId, Seq<char>>,
)
    requires
        reg.contains_key(x),
    ensures
        rewrite_expr(
            ExprView::Call {
                callee: Box::new(
                    ExprView::PropertyGet {
                        object: Box::new(ExprView::LocalGet(x)),
                        property: "set"@,
                    },
                ),
                args: seq![v],
                type_args: types,
            },
            Rewrite::State(reg),
        ) matches ExprView::NativeMethodCall { module, class_name, object, method, args } && module
            == "perry/ui"@ && class_name is None && object is None && method == "setText"@ && args
            == seq![ExprView::String(reg[x]), rewrite_expr(v, Rewrite::State(reg))],
{
    let r = Rewrite::State(reg);
    let e = ExprView::Call {
        callee: Box::new(
            ExprView::PropertyGet { object: Box::new(ExprView::LocalGet(x)), property: "set"@ },
        ),
        args: seq![v],
        type_args: types,
    };
    assert(children(e)[1] == v);
    assert(rewrite_children(e, r)[1] == rewrite_expr(v, r));
}

/// An assignment of a variable that a variable replaces goes to that variable; its value
/// is rewritten itself.
pub proof fn law_assignment_follows_the_variable(
    x: LocalId,
    v: ExprView,
    y: LocalId,
    m: Map<LocalId, ExprView>,
)
    ensures
        m.contains_key(x) && m[x] == ExprView::LocalGet(y) ==> rewrite_expr(
            ExprView::LocalSet(x, Box::new(v)),
            Rewrite::Locals(m),
        ) == ExprView::LocalSet(y, Box::new(rewrite_expr(v, Rewrite::Locals(m)))),
        !m.contains_key(x) ==> rewrite_expr(
            ExprView::LocalSet(x, Box::new(v)),
            Rewrite::Locals(m),
        ) == ExprView::LocalSet(x, Box::new(rewrite_expr(v, Rewrite::Locals(m)))),
{
    let r = Rewrite::Locals(m);
    let e = ExprView::LocalSet(x, Box::new(v));
    assert(children(e)[0] == v);
    assert(rewrite_children(e, r)[0] == rewrite_expr(v, r));
}

/// A call of another function, or with another number of arguments, stays a call, with its
/// callee and its arguments rewritten themselves.
pub proof fn law_other_calls_stay_calls(e: ExprView, ids: Set<FuncId>)
    requires
        e matches ExprView::Call { callee, args, .. } && (args.len() != 2 || !(
        *callee matches ExprView::FuncRef(f) && ids.contains(f))),
    ensures
        rewrite_expr(e, Rewrite::Imul(ids)) is Call,
        children(rewrite_expr(e, Rewrite::Imul(ids))).len() == children(e).len(),
        forall|i: int|
            0 <= i < children(e).len() ==> #[trigger] children(
                rewrite_expr(e, Rewrite::Imul(ids)),
            )[i] == rewrite_expr(children(e)[i], Rewrite::Imul(ids)),
{
    let kids = rewrite_children(e, Rewrite::Imul(ids));
    lemma_children_of_rebuilt(e, kids);
}

/// Only `x.set(v)`, with one argument, sets a state variable: the one in `x`.
pub proof fn law_only_set_sets_a_state(e: ExprView, reg: Map<LocalId, Seq<char>>)
    ensures
        state_set(e, reg) matches Some(name) ==> (e matches ExprView::Call { callee, args, .. }
            && args.len() == 1 && (*callee matches ExprView::PropertyGet { object, property }
            && property == "set"@ && (*object matches ExprView::LocalGet(x) && reg.contains_key(x)
            && reg[x] == name))),
{
}

/// Updates and operations on a variable follow it too: where a variable replaces it they
/// go to that variable, and their arguments are rewritten themselves.
pub proof fn law_updates_follow_the_variable(
    x: LocalId,
    y: LocalId,
    op: UpdateOp,
    prefix: bool,
    call: LocalOp,
    arg: ExprView,
    m: Map<LocalId, ExprView>,
)
    requires
        m.contains_key(x) && m[x] == ExprView::LocalGet(y) || !m.contains_key(x) && x == y,
    ensures
        rewrite_expr(ExprView::Update { id: x, op, prefix }, Rewrite::Locals(m)) == (
        ExprView::Update { id: y, op, prefix }),
        rewrite_expr(
            ExprView::LocalCall { op: call, id: x, args: seq![arg] },
            Rewrite::Locals(m),
        ) == (ExprView::LocalCall {
            op: call,
            id: y,
            args: seq![rewrite_expr(arg, Rewrite::Locals(m))],
        }),
{
    let r = Rewrite::Locals(m);
    let e = ExprView::LocalCall { op: call, id: x, args: seq![arg] };
    assert(children(e)[0] == arg);
    assert(rewrite_children(e, r) =~= seq![rewrite_expr(arg, r)]);
}

/// A rewrite goes into closures: the body and the defaults of the parameters are
/// rewritten, the parameters keep their ids, and the closure stays what it is otherwise.
pub proof fn law_rewrite_goes_into_closures(e: ExprView, r: Rewrite, i: int)
    ensures
        e matches ExprView::Closure { func_id, params, return_type, body, enclosing_class, is_async, .. }
            ==> (rewrite_expr(e, r) matches ExprView::Closure {
            func_id: f2,
            params: p2,
            return_type: t2,
            body: b2,
            enclosing_class: c2,
            is_async: a2,
            ..
        } && f2 == func_id && t2 == return_type && c2 == enclosing_class && a2 == is_async && b2
            == rewrite_stmts(body, r) && p2.len() == params.len() && (0 <= i < params.len()
            ==> p2[i].id == params[i].id && p2[i].name == params[i].name && p2[i].ty
            == params[i].ty && p2[i].is_rest == params[i].is_rest && match params[i].default {
            Some(d) => p2[i].default == Some(rewrite_expr(d, r)),
            None => p2[i].default is None,
        })),
{
    if e is Closure {
        assert(rewrite_expr(e, r) == rewrite_closure(e, r));
        match e {
            ExprView::Closure { params, .. } => {
                if 0 <= i < params.len() {
                    assert(rewrite_params(params, r)[i].id == params[i].id);
                }
            },
            _ => {},
        }
    }
}

} // verus!

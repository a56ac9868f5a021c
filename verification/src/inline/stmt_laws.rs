//! How the pass goes through statements: into branches and loops, past everything else,
//! and around calls whose body cannot take their place.

use crate::hir::LocalId;
use crate::inline::calls::{
    inline_expr, inline_head, inline_stmt, inline_stmts, returns_early, without_return,
};
use crate::inline::candidate::{
    bound_by, bound_by_cases, bound_ids, plain_flow, plain_stmt,
};
use crate::inline::expand::{
    bind_args, callee_of, full_call, is_const_let, last_return, method_expr, pairs, simple_call,
    simple_method, void_stmts, CalleeView, CandidatesView,
};
use crate::inline::meaning::{reads_only, value};
use crate::inline::meaning_calls::{calls_mean_bodies, plain_candidates};
use crate::inline::meaning_lets::names_below;
use crate::inline::meaning_stmts::law_loop_head_keeps_its_value;
use crate::inline::pass::{inline_in, inline_in_classes, inline_in_methods, param_types};
use crate::inline::scan::{expr_has, lemma_expr_lacks, stmts_have, NodeTest};
use crate::model::{CaseView, ClassView, ExprView, FunctionView, StmtView};
use crate::walk::children;
use vstd::prelude::*;

verus! {

// ---------------------------------------------------------------------------
// Nested statements
// ---------------------------------------------------------------------------

/// Both branches get their calls inlined, the first before the second, each in its place;
/// a branch that is missing stays missing.
#[verifier::rlimit(40)]
pub proof fn law_branches_are_inlined(
    condition: ExprView,
    then_branch: Seq<StmtView>,
    else_branch: Option<Seq<StmtView>>,
    c: CandidatesView,
    types: Map<LocalId, Seq<char>>,
    n: nat,
    depth: nat,
)
    ensures
        inline_stmt(
            StmtView::If { condition, then_branch, else_branch },
            c,
            types,
            n,
            depth,
        ) matches Some(run) ==> (inline_expr(condition, c, types, n, depth) matches Some(head) && (
        inline_stmts(then_branch, c, types, head.next, depth) matches Some(yes) && {
            &&& run.out.drop_last() == head.hoisted
            &&& run.out.last() matches StmtView::If {
                condition: x,
                then_branch: a,
                else_branch: b,
            } && x == head.expr && a == yes.out && match else_branch {
                Some(v) => inline_stmts(v, c, yes.types, yes.next, depth) matches Some(no) && b
                    == Some(no.out) && run.next == no.next && run.types == no.types,
                None => b is None && run.next == yes.next && run.types == yes.types,
            }
        })),
{
    let s = StmtView::If { condition, then_branch, else_branch };
    if inline_stmt(s, c, types, n, depth) is Some {
        let run = inline_stmt(s, c, types, n, depth)->0;
        let head = inline_expr(condition, c, types, n, depth)->0;
        assert(run.out.drop_last() =~= head.hoisted);
    }
}

/// The body of a loop gets its calls inlined; the loop stays one statement.
pub proof fn law_loop_bodies_are_inlined(
    condition: ExprView,
    body: Seq<StmtView>,
    c: CandidatesView,
    types: Map<LocalId, Seq<char>>,
    n: nat,
    depth: nat,
)
    ensures
        inline_stmt(StmtView::While { condition, body }, c, types, n, depth) matches Some(run)
            ==> run.out.len() == 1 && (inline_expr(condition, c, types, n, depth) matches Some(head)
            && (inline_stmts(body, c, types, head.next, depth) matches Some(inner) && (
        run.out[0] matches StmtView::While { body: b, .. } && b == inner.out) && run.next
            == inner.next && run.types == inner.types)),
{
}

/// A `for` loop without a first statement keeps its other parts: its condition, its update
/// and its body, each inlined in its place. The condition keeps its value.
#[verifier::rlimit(40)]
pub proof fn law_for_keeps_its_parts<V>(
    init: Option<Box<StmtView>>,
    condition: Option<ExprView>,
    update: Option<ExprView>,
    body: Seq<StmtView>,
    c: CandidatesView,
    n: nat,
    depth: nat,
    env: spec_fn(LocalId) -> V,
    this: V,
    node: spec_fn(ExprView, Seq<V>) -> V,
)
    requires
        init is None,
        plain_candidates(c, n),
        calls_mean_bodies(c, this, node),
        condition matches Some(e) ==> reads_only(e) && names_below(e, n),
    ensures
        inline_stmt(
            StmtView::For { init, condition, update, body },
            c,
            Map::empty(),
            n,
            depth,
        ) matches Some(run) ==> run.out.len() == 1 && (run.out[0] matches StmtView::For {
            init: i,
            condition: x,
            update: u,
            body: b,
        } && i is None && (x is Some <==> condition is Some) && (u is Some <==> update is Some) && (
        condition matches Some(e) ==> value(x->0, env, this, node) == value(e, env, this, node)) && (
        inline_head(condition, c, Map::empty(), n, depth) matches Some((_, n1)) && (inline_head(
            update,
            c,
            Map::empty(),
            n1,
            depth,
        ) matches Some((u2, n2)) && u == u2 && (inline_stmts(
            body,
            c,
            Map::empty(),
            n2,
            depth,
        ) matches Some(inner) && b == inner.out)))),
{
    match condition {
        Some(e) => law_loop_head_keeps_its_value(e, c, Map::empty(), n, depth, env, this, node),
        None => {},
    }
}

/// The first statement of a `for` loop is inlined where one statement comes out, and
/// stays as it was where it would take several. The other parts are inlined behind it,
/// with what it tells of classes.
#[verifier::rlimit(40)]
pub proof fn law_for_keeps_its_first_statement(
    init: StmtView,
    condition: Option<ExprView>,
    update: Option<ExprView>,
    body: Seq<StmtView>,
    c: CandidatesView,
    types: Map<LocalId, Seq<char>>,
    n: nat,
    depth: nat,
)
    ensures
        inline_stmt(
            StmtView::For { init: Some(Box::new(init)), condition, update, body },
            c,
            types,
            n,
            depth,
        ) matches Some(run) ==> run.out.len() == 1 && (run.out[0] matches StmtView::For {
            init: Some(first),
            condition: x,
            update: u,
            body: b,
        } && (inline_stmt(init, c, types, n, depth) matches Some(one) && *first == (if one.out.len()
            == 1 {
            one.out[0]
        } else {
            init
        }) && (inline_head(condition, c, one.types, one.next, depth) matches Some((x1, n1)) && x
            == x1 && (inline_head(update, c, one.types, n1, depth) matches Some((u1, n2)) && u
            == u1 && (inline_stmts(body, c, one.types, n2, depth) matches Some(inner) && b
            == inner.out))))),
{
}

/// All other statements stay as they are, with everything inside them.
pub proof fn law_other_statements_stay(
    s: StmtView,
    c: CandidatesView,
    types: Map<LocalId, Seq<char>>,
    n: nat,
    depth: nat,
)
    requires
        s is DoWhile || s is Labeled || s is Try || s is Switch || s is Break || s is Continue
            || s is LabeledBreak || s is LabeledContinue || s == StmtView::Return(None) || (
        s matches StmtView::Let { init, .. } && init is None),
    ensures
        inline_stmt(s, c, types, n, depth) matches Some(run) && run.out == seq![s] && run.next == n,
{
}

/// A call that is a statement makes way for its body; where that returns early, the call
/// stays a statement and is inlined, if at all, as an expression.
#[verifier::rlimit(40)]
pub proof fn law_statement_calls(
    e: ExprView,
    body: Seq<StmtView>,
    next: nat,
    c: CandidatesView,
    types: Map<LocalId, Seq<char>>,
    n: nat,
    depth: nat,
)
    requires
        full_call(e, c, types, n) == Some((body, next)),
    ensures
        next <= u32::MAX && !returns_early(body) ==> (inline_stmt(
            StmtView::Expr(e),
            c,
            types,
            n,
            depth,
        ) matches Some(run) && run.out == without_return(body) && run.next == next),
        next <= u32::MAX && returns_early(body) ==> match inline_expr(e, c, types, next, depth) {
            Some(inner) => inline_stmt(StmtView::Expr(e), c, types, n, depth) matches Some(run)
                && run.out == inner.hoisted.push(StmtView::Expr(inner.expr)) && run.next
                == inner.next,
            None => inline_stmt(StmtView::Expr(e), c, types, n, depth) is None,
        },
        next > u32::MAX ==> inline_stmt(StmtView::Expr(e), c, types, n, depth) is None,
{
}

// ---------------------------------------------------------------------------
// Method calls
// ---------------------------------------------------------------------------

/// A method call stands as an expression where the method returns an expression and does
/// nothing else, or where it has one or two statements that are expressions or an empty
/// return, and at least one expression; in no other case.
pub proof fn law_methods_as_expressions(
    obj: LocalId,
    f: FunctionView,
    args: Seq<ExprView>,
    n: nat,
    a: ExprView,
    b: ExprView,
)
    ensures
        simple_method(obj, f, args, n) is Some ==> 1 <= f.body.len() <= 2,
        f.body.len() == 2 && last_return(f.body) is Some ==> simple_method(obj, f, args, n) is None,
        f.body == seq![StmtView::Expr(a), StmtView::Expr(b)] ==> {
            let m = bind_args(f.params, args, pairs(f.params, args));
            simple_method(obj, f, args, n) matches Some(r) && r.setup == seq![
                StmtView::Expr(method_expr(a, m, obj)),
                StmtView::Expr(method_expr(b, m, obj)),
            ] && r.result == ExprView::Undefined && r.next == n
        },
        f.body == seq![StmtView::Return(None)] ==> simple_method(obj, f, args, n) is None,
{
    let m = bind_args(f.params, args, pairs(f.params, args));
    reveal_with_fuel(void_stmts, 3);
    if f.body == seq![StmtView::Expr(a), StmtView::Expr(b)] {
        let one = seq![StmtView::Expr(a)];
        assert(f.body.drop_last() =~= one);
        assert(one.drop_last() =~= Seq::empty());
        assert(one.last() == StmtView::Expr(a));
        assert(f.body.last() == StmtView::Expr(b));
        assert(Seq::<StmtView>::empty().push(StmtView::Expr(method_expr(a, m, obj))).push(
            StmtView::Expr(method_expr(b, m, obj)),
        ) =~= seq![
            StmtView::Expr(method_expr(a, m, obj)),
            StmtView::Expr(method_expr(b, m, obj)),
        ]);
    }
    if f.body == seq![StmtView::Return(None)] {
        assert(f.body.drop_last() =~= Seq::empty());
        assert(f.body.last() == StmtView::Return(None));
    }
    if f.body.len() == 0 {
        assert(void_stmts(f.body, m, obj) == Some(Seq::<StmtView>::empty()));
    }
}

/// A method call is expanded with its receiver, its method and its arguments.
pub proof fn law_method_call_takes_its_arguments(
    e: ExprView,
    obj: LocalId,
    f: FunctionView,
    args: Seq<ExprView>,
    c: CandidatesView,
    types: Map<LocalId, Seq<char>>,
    n: nat,
)
    requires
        callee_of(e, c, types) == Some(CalleeView::Method(obj, f)),
        e matches ExprView::Call { args: v, .. } && v == args,
    ensures
        simple_call(e, c, types, n) == simple_method(obj, f, args, n),
{
}

/// A constant is a let that cannot change and has a value.
pub proof fn law_const_let(s: StmtView)
    ensures
        is_const_let(s) <==> (s matches StmtView::Let { mutable: false, init: Some(_), .. }),
{
}

// ---------------------------------------------------------------------------
// What a body binds
// ---------------------------------------------------------------------------

/// Whether the statement binds the id, in whatever statement it holds: with a let, or as
/// the parameter of a catch.
pub open spec fn binds_directly(s: StmtView, x: LocalId) -> bool
    decreases s, 0nat,
{
    match s {
        StmtView::Let { id, .. } => id == x,
        StmtView::If { then_branch, else_branch, .. } => some_binds(then_branch, x) || (
        match else_branch {
            Some(b) => some_binds(b, x),
            None => false,
        }),
        StmtView::While { body, .. } => some_binds(body, x),
        StmtView::DoWhile { body, .. } => some_binds(body, x),
        StmtView::For { init, body, .. } => (match init {
            Some(i) => binds_directly(*i, x),
            None => false,
        }) || some_binds(body, x),
        StmtView::Labeled { body, .. } => binds_directly(*body, x),
        StmtView::Try { body, catch, finally } => {
            ||| some_binds(body, x)
            ||| match catch {
                Some(c) => some_binds(c.body, x) || (match c.param {
                    Some(p) => p.0 == x,
                    None => false,
                }),
                None => false,
            }
            ||| match finally {
                Some(b) => some_binds(b, x),
                None => false,
            }
        },
        StmtView::Switch { cases, .. } => some_case_binds(cases, x),
        _ => false,
    }
}

/// Whether one of the statements binds the id.
pub open spec fn some_binds(v: Seq<StmtView>, x: LocalId) -> bool
    decreases v, 0nat,
{
    exists|i: int| 0 <= i < v.len() && binds_directly(#[trigger] v[i], x)
}

/// Whether a statement of one of the cases binds the id.
pub open spec fn some_case_binds(v: Seq<CaseView>, x: LocalId) -> bool
    decreases v, 0nat,
{
    exists|i: int| 0 <= i < v.len() && some_binds((#[trigger] v[i]).body, x)
}

/// The ids that a body binds are those of its lets and catches, wherever they stand, and
/// no others.
pub proof fn law_bound_ids(v: Seq<StmtView>, x: LocalId)
    ensures
        bound_ids(v).contains(x) <==> some_binds(v, x),
    decreases v, v.len(),
{
    if v.len() > 0 {
        let front = v.drop_last();
        let s = v.last();
        assert(v[v.len() - 1] == s);
        law_bound_ids(front, x);
        lemma_bound_by(s, x);
        lemma_contains_either(bound_ids(front), bound_by(s), x);
        assert(bound_ids(v) == bound_ids(front) + bound_by(s));
        if some_binds(v, x) {
            let i = choose|i: int| 0 <= i < v.len() && binds_directly(#[trigger] v[i], x);
            if i < front.len() {
                assert(binds_directly(front[i], x));
            }
        }
        if some_binds(front, x) {
            let i = choose|i: int| 0 <= i < front.len() && binds_directly(#[trigger] front[i], x);
            assert(binds_directly(v[i], x));
        }
    }
}

proof fn lemma_contains_either(a: Seq<LocalId>, b: Seq<LocalId>, x: LocalId)
    ensures
        (a + b).contains(x) <==> a.contains(x) || b.contains(x),
{
    if (a + b).contains(x) {
        let i = choose|i: int| 0 <= i < (a + b).len() && (a + b)[i] == x;
        if i < a.len() {
            assert(a[i] == x);
        } else {
            assert(b[i - a.len()] == x);
        }
    }
    if a.contains(x) {
        let i = choose|i: int| 0 <= i < a.len() && a[i] == x;
        assert((a + b)[i] == x);
    }
    if b.contains(x) {
        let i = choose|i: int| 0 <= i < b.len() && b[i] == x;
        assert((a + b)[a.len() + i] == x);
    }
}

proof fn lemma_bound_by_cases(v: Seq<CaseView>, x: LocalId)
    ensures
        bound_by_cases(v).contains(x) <==> some_case_binds(v, x),
    decreases v, v.len(),
{
    if v.len() > 0 {
        let front = v.drop_last();
        let c = v.last();
        assert(v[v.len() - 1] == c);
        lemma_bound_by_cases(front, x);
        law_bound_ids(c.body, x);
        lemma_contains_either(bound_by_cases(front), bound_ids(c.body), x);
        assert(bound_by_cases(v) == bound_by_cases(front) + bound_ids(c.body));
        if some_case_binds(v, x) {
            let i = choose|i: int| 0 <= i < v.len() && some_binds((#[trigger] v[i]).body, x);
            if i < front.len() {
                assert(some_binds(front[i].body, x));
            }
        }
        if some_case_binds(front, x) {
            let i = choose|i: int|
                0 <= i < front.len() && some_binds((#[trigger] front[i]).body, x);
            assert(some_binds(v[i].body, x));
        }
    }
}

#[verifier::rlimit(40)]
proof fn lemma_bound_by(s: StmtView, x: LocalId)
    ensures
        bound_by(s).contains(x) <==> binds_directly(s, x),
    decreases s, 0nat,
{
    match s {
        StmtView::Let { id, .. } => {
            assert(bound_by(s)[0] == id);
        },
        StmtView::If { then_branch, else_branch, .. } => {
            law_bound_ids(then_branch, x);
            match else_branch {
                Some(b) => {
                    law_bound_ids(b, x);
                    lemma_contains_either(bound_ids(then_branch), bound_ids(b), x);
                },
                None => {
                    lemma_contains_either(bound_ids(then_branch), Seq::empty(), x);
                },
            }
        },
        StmtView::While { body, .. } => law_bound_ids(body, x),
        StmtView::DoWhile { body, .. } => law_bound_ids(body, x),
        StmtView::For { init, body, .. } => {
            law_bound_ids(body, x);
            match init {
                Some(i) => {
                    lemma_bound_by(*i, x);
                    lemma_contains_either(bound_by(*i), bound_ids(body), x);
                },
                None => {
                    lemma_contains_either(Seq::empty(), bound_ids(body), x);
                },
            }
        },
        StmtView::Labeled { body, .. } => lemma_bound_by(*body, x),
        StmtView::Try { body, catch, finally } => {
            law_bound_ids(body, x);
            let a = bound_ids(body);
            let b = match catch {
                Some(c) => (match c.param {
                    Some(p) => seq![p.0],
                    None => Seq::empty(),
                }) + bound_ids(c.body),
                None => Seq::empty(),
            };
            let d = match finally {
                Some(w) => bound_ids(w),
                None => Seq::empty(),
            };
            lemma_contains_either(a, b, x);
            lemma_contains_either(a + b, d, x);
            match catch {
                Some(c) => {
                    law_bound_ids(c.body, x);
                    match c.param {
                        Some(p) => {
                            lemma_contains_either(seq![p.0], bound_ids(c.body), x);
                            assert(seq![p.0][0] == p.0);
                        },
                        None => lemma_contains_either(Seq::empty(), bound_ids(c.body), x),
                    }
                },
                None => {},
            }
            match finally {
                Some(w) => law_bound_ids(w, x),
                None => {},
            }
            assert(bound_by(s) == a + b + d);
        },
        StmtView::Switch { cases, .. } => lemma_bound_by_cases(cases, x),
        _ => {},
    }
}

/// What a pure function cannot hold, in any statement: a switch, a try or a label.
pub proof fn law_plain_flow(s: StmtView)
    ensures
        s is Switch || s is Try || s is Labeled ==> !plain_stmt(s),
        s is Let || s is Expr || s is Return || s is Throw || s is Break || s is Continue
            ==> plain_stmt(s),
        s matches StmtView::If { then_branch, else_branch, .. } ==> (plain_stmt(s) <==> plain_flow(
            then_branch,
        ) && (else_branch matches Some(b) ==> plain_flow(b))),
        s matches StmtView::While { body, .. } ==> (plain_stmt(s) <==> plain_flow(body)),
        s matches StmtView::DoWhile { body, .. } ==> (plain_stmt(s) <==> plain_flow(body)),
        s matches StmtView::For { init, body, .. } ==> (plain_stmt(s) <==> plain_flow(body) && (
        init matches Some(i) ==> plain_stmt(*i))),
{
}

// ---------------------------------------------------------------------------
// What is asked of a body
// ---------------------------------------------------------------------------

/// A call of the parent class is seen, be it of its constructor or of a method; so is a
/// closure that captures a parameter. Globals, functions from elsewhere, native methods
/// and foreign variables reach outside a function.
pub proof fn law_what_is_asked_of_a_body(e: ExprView, ids: Seq<LocalId>, known: Set<LocalId>, i: int)
    ensures
        e is SuperCall || e is SuperMethodCall ==> expr_has(e, NodeTest::CallsSuper),
        e matches ExprView::Closure { captures, .. } ==> 0 <= i < captures.len() && ids.contains(
            captures[i],
        ) ==> expr_has(e, NodeTest::Captures(ids)),
        e is GlobalGet || e is GlobalSet || e is ExternFuncRef || e is NativeMethodCall ==> expr_has(
            e,
            NodeTest::Outside(known),
        ),
        e matches ExprView::LocalGet(x) ==> !known.contains(x) ==> expr_has(
            e,
            NodeTest::Outside(known),
        ),
        e matches ExprView::LocalSet(x, _) ==> !known.contains(x) ==> expr_has(
            e,
            NodeTest::Outside(known),
        ),
        e matches ExprView::Update { id, .. } ==> !known.contains(id) ==> expr_has(
            e,
            NodeTest::Outside(known),
        ),
        e matches ExprView::LocalCall { id, .. } ==> !known.contains(id) ==> expr_has(
            e,
            NodeTest::Outside(known),
        ),
        e matches ExprView::Closure { captures, .. } ==> 0 <= i < captures.len() && !known.contains(
            captures[i],
        ) ==> expr_has(e, NodeTest::Outside(known)),
{
    lemma_expr_lacks(e, NodeTest::CallsSuper);
    lemma_expr_lacks(e, NodeTest::Captures(ids));
    lemma_expr_lacks(e, NodeTest::Outside(known));
    match e {
        ExprView::Closure { captures, .. } => {
            if 0 <= i < captures.len() {
                assert(captures[i] == captures[i]);
            }
        },
        _ => {},
    }
}

/// What a part of an expression holds, the expression holds, at any depth.
pub proof fn law_parts_are_searched(e: ExprView, i: int, t: NodeTest)
    ensures
        0 <= i < children(e).len() && expr_has(children(e)[i], t) ==> expr_has(e, t),
        e matches ExprView::Closure { body, .. } ==> stmts_have(body, t) ==> expr_has(e, t),
{
    lemma_expr_lacks(e, t);
}

// ---------------------------------------------------------------------------
// Functions and classes
// ---------------------------------------------------------------------------

/// A function keeps everything but its body, in which calls are inlined; the classes of
/// its parameters are known there.
pub proof fn law_function_keeps_all_but_its_body(
    f: FunctionView,
    c: CandidatesView,
    n: nat,
    depth: nat,
)
    ensures
        match inline_stmts(f.body, c, param_types(f.params), n, depth) {
            Some(run) => inline_in(f, c, n, depth) matches Some((g, next)) && g == (FunctionView {
                body: run.out,
                ..f
            }) && next == run.next,
            None => inline_in(f, c, n, depth) is None,
        },
{
}

/// Classes are gone through in order; each keeps everything but its methods.
pub proof fn law_classes_in_order(
    v: Seq<ClassView>,
    k: nat,
    i: nat,
    c: CandidatesView,
    n: nat,
    depth: nat,
)
    requires
        i < k <= v.len(),
        inline_in_classes(v, k, c, n, depth) is Some,
    ensures
        (inline_in_classes(v, k, c, n, depth)->0).0.len() == k,
        inline_in_classes(v, i, c, n, depth) matches Some((front, n1)) && (inline_in_methods(
            v[i as int].name,
            v[i as int].methods,
            v[i as int].methods.len(),
            c,
            n1,
            depth,
        ) matches Some((methods, _)) && (inline_in_classes(v, k, c, n, depth)->0).0[i as int] == (
        ClassView { methods, ..v[i as int] })),
    decreases k,
{
    let j = (k - 1) as nat;
    if i < j {
        law_classes_in_order(v, j, i, c, n, depth);
    } else if j > 0 {
        law_classes_in_order(v, j, (j - 1) as nat, c, n, depth);
    }
}

} // verus!

//! The ids that the inlining pass takes are fresh.

use crate::hir::{FuncId, LocalId};
use crate::inline::calls::{
    head_of, inline_children, inline_expr, inline_first, inline_head, inline_stmt, inline_stmts,
    noted, returns_early, searched, without_return,
};
use crate::inline::candidate::inlinable;
use crate::inline::expand::{full_call, simple_call, CandidatesView};
use crate::inline::fresh::{
    candidates_free, free, lemma_free, lemma_full_free, lemma_imul_stmts_free, lemma_rebuilt_free,
    lemma_simple_free, lemma_stmts_free, lemma_stmts_free_concat, lemma_stmts_free_front,
    lemma_stmts_free_push, stmt_free, stmts_free,
};
use crate::inline::module_ids::{
    accessors_name, class_names, classes_name, function_names, functions_name, lemma_module_max,
    lemma_module_max_exists, max_in_module, module_max, module_names,
};
use crate::inline::pass::{
    candidates_of, first_free, func_candidates, imul_ids, imul_in, imul_in_accessors, imul_in_class,
    imul_in_module, inline_in, inline_in_classes, inline_in_functions, inline_in_methods,
    inline_init, inline_module, inline_rest, method_candidates, methods_of, param_types, pure_only,
};
use crate::inline::scan::{lemma_stmt_has, NodeTest};
use crate::model::{ClassView, ExprView, FunctionView, ModuleView, StmtView};
use crate::walk::{children, lemma_children_smaller};
use vstd::prelude::*;

verus! {

// ---------------------------------------------------------------------------
// Expressions and statements
// ---------------------------------------------------------------------------

proof fn lemma_inline_expr_free(
    e: ExprView,
    c: CandidatesView,
    types: Map<LocalId, Seq<char>>,
    n: nat,
    depth: nat,
    x: LocalId,
)
    requires
        free(e, x),
        candidates_free(c, x),
        x < n,
    ensures
        inline_expr(e, c, types, n, depth) matches Some(run) ==> {
            &&& stmts_free(run.hoisted, x)
            &&& free(run.expr, x)
            &&& n <= run.next
        },
    decreases depth, e, 1nat, 0nat,
{
    lemma_stmts_free(Seq::empty(), x);
    match simple_call(e, c, types, n) {
        Some(simple) => if simple.next <= u32::MAX && depth > 0 {
            lemma_simple_free(e, c, types, n, x);
            lemma_inline_expr_free(simple.result, c, types, simple.next, (depth - 1) as nat, x);
            match inline_expr(simple.result, c, types, simple.next, (depth - 1) as nat) {
                Some(run) => lemma_stmts_free_concat(simple.setup, run.hoisted, x),
                None => {},
            }
        },
        None => if searched(e) {
            lemma_inline_children_free(e, children(e).len(), c, types, n, depth, x);
            match inline_children(e, children(e).len(), c, types, n, depth) {
                Some(run) => {
                    lemma_free(e, x);
                    lemma_rebuilt_free(e, run.kids, x);
                },
                None => {},
            }
        },
    }
}

proof fn lemma_inline_children_free(
    e: ExprView,
    k: nat,
    c: CandidatesView,
    types: Map<LocalId, Seq<char>>,
    n: nat,
    depth: nat,
    x: LocalId,
)
    requires
        k <= children(e).len(),
        free(e, x),
        candidates_free(c, x),
        x < n,
    ensures
        inline_children(e, k, c, types, n, depth) matches Some(run) ==> {
            &&& stmts_free(run.hoisted, x)
            &&& run.kids.len() == k
            &&& forall|i: int| 0 <= i < run.kids.len() ==> free(#[trigger] run.kids[i], x)
            &&& n <= run.next
        },
    decreases depth, e, 0nat, k,
{
    lemma_stmts_free(Seq::empty(), x);
    if k > 0 {
        lemma_children_smaller(e, k - 1);
        lemma_free(e, x);
        lemma_inline_children_free(e, (k - 1) as nat, c, types, n, depth, x);
        match inline_children(e, (k - 1) as nat, c, types, n, depth) {
            Some(front) => {
                lemma_inline_expr_free(children(e)[k - 1], c, types, front.next, depth, x);
                match inline_expr(children(e)[k - 1], c, types, front.next, depth) {
                    Some(run) => lemma_stmts_free_concat(front.hoisted, run.hoisted, x),
                    None => {},
                }
            },
            None => {},
        }
    }
}

proof fn lemma_inline_head_free(
    o: Option<ExprView>,
    c: CandidatesView,
    types: Map<LocalId, Seq<char>>,
    n: nat,
    depth: nat,
    x: LocalId,
)
    requires
        o matches Some(e) ==> free(e, x),
        candidates_free(c, x),
        x < n,
    ensures
        inline_head(o, c, types, n, depth) matches Some((out, next)) ==> {
            &&& out is Some == o is Some
            &&& (out matches Some(e) ==> free(e, x))
            &&& n <= next
        },
{
    match o {
        Some(e) => lemma_inline_expr_free(e, c, types, n, depth, x),
        None => {},
    }
}

proof fn lemma_without_return_free(v: Seq<StmtView>, x: LocalId)
    requires
        stmts_free(v, x),
    ensures
        stmts_free(without_return(v), x),
{
    if v.len() > 0 {
        lemma_stmts_free_front(v, x);
        lemma_stmt_has(v.last(), NodeTest::Names(x));
        match v.last() {
            StmtView::Return(Some(e)) => {
                lemma_stmt_has(StmtView::Expr(e), NodeTest::Names(x));
                lemma_stmts_free_push(v.drop_last(), StmtView::Expr(e), x);
            },
            _ => {},
        }
    }
}

/// A statement that is put behind what its expression needs.
proof fn lemma_in_place_free(
    hoisted: Seq<StmtView>,
    s: StmtView,
    old: StmtView,
    e: ExprView,
    x: LocalId,
)
    requires
        stmts_free(hoisted, x),
        free(e, x),
        stmt_free(old, x),
        match old {
            StmtView::Expr(_) => s == StmtView::Expr(e),
            StmtView::Let { id, name, ty, mutable, init: Some(_) } => s == (StmtView::Let {
                id,
                name,
                ty,
                mutable,
                init: Some(e),
            }),
            StmtView::Return(Some(_)) => s == StmtView::Return(Some(e)),
            StmtView::Throw(_) => s == StmtView::Throw(e),
            _ => false,
        },
    ensures
        stmts_free(hoisted.push(s), x),
{
    lemma_stmt_has(old, NodeTest::Names(x));
    lemma_stmt_has(s, NodeTest::Names(x));
    lemma_stmts_free_push(hoisted, s, x);
}

proof fn lemma_inline_stmt_free(
    s: StmtView,
    c: CandidatesView,
    known: Map<LocalId, Seq<char>>,
    n: nat,
    depth: nat,
    x: LocalId,
)
    requires
        stmt_free(s, x),
        candidates_free(c, x),
        x < n,
    ensures
        inline_stmt(s, c, known, n, depth) matches Some(run) ==> stmts_free(run.out, x) && n
            <= run.next,
    decreases s, 2nat,
{
    let t = NodeTest::Names(x);
    let types = noted(s, known);
    lemma_stmt_has(s, t);
    match s {
        StmtView::Expr(e) => {
            lemma_full_free(e, c, types, n, x);
            match full_call(e, c, types, n) {
                Some((body, n1)) => if n1 <= u32::MAX {
                    if returns_early(body) {
                        lemma_inline_expr_free(e, c, types, n1, depth, x);
                        match inline_expr(e, c, types, n1, depth) {
                            Some(r) => lemma_in_place_free(
                                r.hoisted,
                                StmtView::Expr(r.expr),
                                s,
                                r.expr,
                                x,
                            ),
                            None => {},
                        }
                    } else {
                        lemma_without_return_free(body, x);
                    }
                },
                None => {
                    lemma_inline_expr_free(e, c, types, n, depth, x);
                    match inline_expr(e, c, types, n, depth) {
                        Some(r) => lemma_in_place_free(
                            r.hoisted,
                            StmtView::Expr(r.expr),
                            s,
                            r.expr,
                            x,
                        ),
                        None => {},
                    }
                },
            }
        },
        StmtView::Let { id, name, ty, mutable, init: Some(e) } => {
            lemma_inline_expr_free(e, c, types, n, depth, x);
            match inline_expr(e, c, types, n, depth) {
                Some(r) => lemma_in_place_free(
                    r.hoisted,
                    StmtView::Let { id, name, ty, mutable, init: Some(r.expr) },
                    s,
                    r.expr,
                    x,
                ),
                None => {},
            }
        },
        StmtView::Return(Some(e)) => {
            lemma_inline_expr_free(e, c, types, n, depth, x);
            match inline_expr(e, c, types, n, depth) {
                Some(r) => lemma_in_place_free(
                    r.hoisted,
                    StmtView::Return(Some(r.expr)),
                    s,
                    r.expr,
                    x,
                ),
                None => {},
            }
        },
        StmtView::Throw(e) => {
            lemma_inline_expr_free(e, c, types, n, depth, x);
            match inline_expr(e, c, types, n, depth) {
                Some(r) => lemma_in_place_free(r.hoisted, StmtView::Throw(r.expr), s, r.expr, x),
                None => {},
            }
        },
        StmtView::If { .. } => lemma_inline_if_free(s, c, known, n, depth, x),
        StmtView::While { .. } => lemma_inline_while_free(s, c, known, n, depth, x),
        StmtView::For { .. } => lemma_inline_for_free(s, c, known, n, depth, x),
        _ => {
            lemma_stmts_free(Seq::empty(), x);
            lemma_stmts_free_push(Seq::empty(), s, x);
            assert(Seq::empty().push(s) =~= seq![s]);
        },
    }
}

proof fn lemma_inline_if_free(
    s: StmtView,
    c: CandidatesView,
    known: Map<LocalId, Seq<char>>,
    n: nat,
    depth: nat,
    x: LocalId,
)
    requires
        s is If,
        stmt_free(s, x),
        candidates_free(c, x),
        x < n,
    ensures
        inline_stmt(s, c, known, n, depth) matches Some(run) ==> stmts_free(run.out, x) && n
            <= run.next,
    decreases s, 1nat,
{
    let t = NodeTest::Names(x);
    let types = noted(s, known);
    lemma_stmt_has(s, t);
    match s {
        StmtView::If { condition, then_branch, else_branch } => {
            lemma_inline_expr_free(condition, c, types, n, depth, x);
            match inline_expr(condition, c, types, n, depth) {
                Some(cond) => {
                    lemma_inline_stmts_free(then_branch, c, types, cond.next, depth, x);
                    match inline_stmts(then_branch, c, types, cond.next, depth) {
                        Some(yes) => {
                            let no = match else_branch {
                                Some(b) => {
                                    lemma_inline_stmts_free(b, c, yes.types, yes.next, depth, x);
                                    match inline_stmts(b, c, yes.types, yes.next, depth) {
                                        Some(no) => Some(no.out),
                                        None => None,
                                    }
                                },
                                None => None,
                            };
                            let out = StmtView::If {
                                condition: cond.expr,
                                then_branch: yes.out,
                                else_branch: no,
                            };
                            lemma_stmt_has(out, t);
                            lemma_stmts_free_push(cond.hoisted, out, x);
                        },
                        None => {},
                    }
                },
                None => {},
            }
        },
        _ => {},
    }
}

proof fn lemma_inline_while_free(
    s: StmtView,
    c: CandidatesView,
    known: Map<LocalId, Seq<char>>,
    n: nat,
    depth: nat,
    x: LocalId,
)
    requires
        s is While,
        stmt_free(s, x),
        candidates_free(c, x),
        x < n,
    ensures
        inline_stmt(s, c, known, n, depth) matches Some(run) ==> stmts_free(run.out, x) && n
            <= run.next,
    decreases s, 1nat,
{
    let t = NodeTest::Names(x);
    let types = noted(s, known);
    lemma_stmt_has(s, t);
    match s {
        StmtView::While { condition, body } => {
            lemma_inline_expr_free(condition, c, types, n, depth, x);
            match inline_expr(condition, c, types, n, depth) {
                Some(cond) => {
                    lemma_inline_stmts_free(body, c, types, cond.next, depth, x);
                    match inline_stmts(body, c, types, cond.next, depth) {
                        Some(run) => {
                            let head = head_of(condition, cond);
                            let out = StmtView::While { condition: head, body: run.out };
                            lemma_stmt_has(out, t);
                            lemma_stmts_free(seq![out], x);
                        },
                        None => {},
                    }
                },
                None => {},
            }
        },
        _ => {},
    }
}

proof fn lemma_inline_for_free(
    s: StmtView,
    c: CandidatesView,
    known: Map<LocalId, Seq<char>>,
    n: nat,
    depth: nat,
    x: LocalId,
)
    requires
        s is For,
        stmt_free(s, x),
        candidates_free(c, x),
        x < n,
    ensures
        inline_stmt(s, c, known, n, depth) matches Some(run) ==> stmts_free(run.out, x) && n
            <= run.next,
    decreases s, 1nat,
{
    let t = NodeTest::Names(x);
    let types = noted(s, known);
    lemma_stmt_has(s, t);
    match s {
        StmtView::For { init, condition, update, body } => {
            if inline_stmt(s, c, known, n, depth) is Some {
                let (start, types1, n1) = match init {
                    Some(i) => {
                        lemma_inline_stmt_free(*i, c, types, n, depth, x);
                        let run = inline_stmt(*i, c, types, n, depth)->0;
                        lemma_stmts_free(run.out, x);
                        let first = if run.out.len() == 1 { run.out[0] } else { *i };
                        (Some(Box::new(first)), run.types, run.next)
                    },
                    None => (None, types, n),
                };
                lemma_inline_head_free(condition, c, types1, n1, depth, x);
                let (cond, n2) = inline_head(condition, c, types1, n1, depth)->0;
                lemma_inline_head_free(update, c, types1, n2, depth, x);
                let (upd, n3) = inline_head(update, c, types1, n2, depth)->0;
                lemma_inline_stmts_free(body, c, types1, n3, depth, x);
                let run = inline_stmts(body, c, types1, n3, depth)->0;
                let out = StmtView::For {
                    init: start,
                    condition: cond,
                    update: upd,
                    body: run.out,
                };
                lemma_stmt_has(out, t);
                lemma_stmts_free(seq![out], x);
            }
        },
        _ => {},
    }
}

proof fn lemma_inline_stmts_free(
    v: Seq<StmtView>,
    c: CandidatesView,
    types: Map<LocalId, Seq<char>>,
    n: nat,
    depth: nat,
    x: LocalId,
)
    requires
        stmts_free(v, x),
        candidates_free(c, x),
        x < n,
    ensures
        inline_stmts(v, c, types, n, depth) matches Some(run) ==> stmts_free(run.out, x) && n
            <= run.next,
    decreases v, v.len() + 1,
{
    lemma_inline_first_free(v, v.len(), c, types, n, depth, x);
}

proof fn lemma_inline_first_free(
    v: Seq<StmtView>,
    k: nat,
    c: CandidatesView,
    types: Map<LocalId, Seq<char>>,
    n: nat,
    depth: nat,
    x: LocalId,
)
    requires
        stmts_free(v, x),
        candidates_free(c, x),
        x < n,
    ensures
        inline_first(v, k, c, types, n, depth) matches Some(run) ==> stmts_free(run.out, x) && n
            <= run.next,
    decreases v, k,
{
    lemma_stmts_free(Seq::empty(), x);
    if 0 < k <= v.len() {
        lemma_inline_first_free(v, (k - 1) as nat, c, types, n, depth, x);
        lemma_stmts_free(v, x);
        match inline_first(v, (k - 1) as nat, c, types, n, depth) {
            Some(front) => {
                lemma_inline_stmt_free(v[k - 1], c, front.types, front.next, depth, x);
                match inline_stmt(v[k - 1], c, front.types, front.next, depth) {
                    Some(one) => lemma_stmts_free_concat(front.out, one.out, x),
                    None => {},
                }
            },
            None => {},
        }
    }
}

// ---------------------------------------------------------------------------
// Modules
// ---------------------------------------------------------------------------

proof fn lemma_functions_name(v: Seq<FunctionView>, w: Seq<FunctionView>, x: LocalId)
    requires
        v.len() == w.len(),
        forall|i: int|
            0 <= i < v.len() ==> function_names(w[i], x) ==> #[trigger] function_names(v[i], x),
        functions_name(w, x),
    ensures
        functions_name(v, x),
{
    let i = choose|i: int| 0 <= i < w.len() && #[trigger] function_names(w[i], x);
    assert(function_names(v[i], x));
}

proof fn lemma_imul_function(f: FunctionView, ids: Set<FuncId>, x: LocalId)
    ensures
        function_names(imul_in(f, ids), x) == function_names(f, x),
{
    lemma_imul_stmts_free(f.body, ids, x);
}

proof fn lemma_imul_functions(
    v: Seq<FunctionView>,
    w: Seq<FunctionView>,
    ids: Set<FuncId>,
    x: LocalId,
)
    requires
        v.len() == w.len(),
        forall|i: int|
            0 <= i < v.len() ==> #[trigger] w[i] == v[i] || w[i] == imul_in(v[i], ids),
    ensures
        functions_name(w, x) == functions_name(v, x),
{
    assert forall|i: int| 0 <= i < v.len() implies function_names(w[i], x)
        == #[trigger] function_names(v[i], x) by {
        assert(w[i] == v[i] || w[i] == imul_in(v[i], ids));
        lemma_imul_function(v[i], ids, x);
    }
    if functions_name(v, x) {
        let i = choose|i: int| 0 <= i < v.len() && #[trigger] function_names(v[i], x);
        assert(function_names(w[i], x));
    }
    if functions_name(w, x) {
        lemma_functions_name(v, w, x);
    }
}

proof fn lemma_imul_accessors(v: Seq<(Seq<char>, FunctionView)>, ids: Set<FuncId>, x: LocalId)
    ensures
        accessors_name(imul_in_accessors(v, ids), x) == accessors_name(v, x),
{
    let w = imul_in_accessors(v, ids);
    assert forall|i: int| 0 <= i < v.len() implies function_names(w[i].1, x)
        == #[trigger] function_names(v[i].1, x) by {
        lemma_imul_function(v[i].1, ids, x);
    }
    if accessors_name(v, x) {
        let i = choose|i: int| 0 <= i < v.len() && #[trigger] function_names(v[i].1, x);
        assert(function_names(w[i].1, x));
    }
    if accessors_name(w, x) {
        let i = choose|i: int| 0 <= i < w.len() && #[trigger] function_names(w[i].1, x);
        assert(function_names(v[i].1, x));
    }
}

proof fn lemma_imul_class(c: ClassView, ids: Set<FuncId>, x: LocalId)
    ensures
        class_names(imul_in_class(c, ids), x) == class_names(c, x),
{
    match c.constructor {
        Some(f) => lemma_imul_function(f, ids, x),
        None => {},
    }
    let c1 = imul_in_class(c, ids);
    lemma_imul_functions(c.methods, c1.methods, ids, x);
    lemma_imul_accessors(c.getters, ids, x);
    lemma_imul_accessors(c.setters, ids, x);
    lemma_imul_functions(c.static_methods, c1.static_methods, ids, x);
}

/// Rewriting the multiplications changes no name.
pub proof fn lemma_imul_module(m: ModuleView, ids: Set<FuncId>, x: LocalId)
    ensures
        module_names(imul_in_module(m, ids), x) == module_names(m, x),
{
    let m1 = imul_in_module(m, ids);
    lemma_imul_stmts_free(m.init, ids, x);
    lemma_imul_functions(m.functions, m1.functions, ids, x);
    assert forall|i: int| 0 <= i < m.classes.len() implies class_names(m1.classes[i], x)
        == #[trigger] class_names(m.classes[i], x) by {
        lemma_imul_class(m.classes[i], ids, x);
    }
    if classes_name(m.classes, x) {
        let i = choose|i: int| 0 <= i < m.classes.len() && #[trigger] class_names(m.classes[i], x);
        assert(class_names(m1.classes[i], x));
    }
    if classes_name(m1.classes, x) {
        let i = choose|i: int|
            0 <= i < m1.classes.len() && #[trigger] class_names(m1.classes[i], x);
        assert(class_names(m.classes[i], x));
    }
}

proof fn lemma_functions_free(v: Seq<FunctionView>, x: LocalId, i: int)
    requires
        !functions_name(v, x),
        0 <= i < v.len(),
    ensures
        !function_names(v[i], x),
        stmts_free(v[i].body, x),
{
    assert(!function_names(v[i], x));
}

proof fn lemma_func_candidates_free(v: Seq<FunctionView>, x: LocalId)
    requires
        forall|i: int| 0 <= i < v.len() ==> !#[trigger] function_names(v[i], x),
    ensures
        forall|id: FuncId|
            func_candidates(v).contains_key(id) ==> stmts_free(
                (#[trigger] func_candidates(v)[id]).body,
                x,
            ),
    decreases v.len(),
{
    if v.len() > 0 {
        let front = v.drop_last();
        assert forall|i: int| 0 <= i < front.len() implies !#[trigger] function_names(
            front[i],
            x,
        ) by {
            assert(front[i] == v[i]);
            assert(!function_names(v[i], x));
        }
        lemma_func_candidates_free(front, x);
        assert(!function_names(v[v.len() - 1], x));
        assert(v.last() == v[v.len() - 1]);
        let all = func_candidates(v);
        assert forall|id: FuncId| all.contains_key(id) implies stmts_free(
            (#[trigger] all[id]).body,
            x,
        ) by {
            if !(inlinable(v.last()) && id == v.last().id) {
                assert(func_candidates(front).contains_key(id));
                assert(stmts_free(func_candidates(front)[id].body, x));
            }
        }
    }
}

pub open spec fn bodies_free(v: Seq<(Seq<char>, FunctionView)>, x: LocalId) -> bool {
    forall|i: int| 0 <= i < v.len() ==> stmts_free((#[trigger] v[i]).1.body, x)
}

proof fn lemma_methods_of_free(class: Seq<char>, v: Seq<FunctionView>, x: LocalId)
    requires
        forall|i: int| 0 <= i < v.len() ==> !#[trigger] function_names(v[i], x),
    ensures
        bodies_free(methods_of(class, v), x),
    decreases v.len(),
{
    if v.len() > 0 {
        let front = v.drop_last();
        assert forall|i: int| 0 <= i < front.len() implies !#[trigger] function_names(
            front[i],
            x,
        ) by {
            assert(front[i] == v[i]);
            assert(!function_names(v[i], x));
        }
        lemma_methods_of_free(class, front, x);
        assert(!function_names(v[v.len() - 1], x));
        let all = methods_of(class, v);
        assert forall|i: int| 0 <= i < all.len() implies stmts_free(
            (#[trigger] all[i]).1.body,
            x,
        ) by {
            if i < methods_of(class, front).len() {
                assert(all[i] == methods_of(class, front)[i]);
            }
        }
    }
}

proof fn lemma_method_candidates_free(v: Seq<ClassView>, x: LocalId)
    requires
        forall|i: int| 0 <= i < v.len() ==> !#[trigger] class_names(v[i], x),
    ensures
        bodies_free(method_candidates(v), x),
    decreases v.len(),
{
    if v.len() > 0 {
        let front = v.drop_last();
        assert forall|i: int| 0 <= i < front.len() implies !#[trigger] class_names(
            front[i],
            x,
        ) by {
            assert(front[i] == v[i]);
            assert(!class_names(v[i], x));
        }
        lemma_method_candidates_free(front, x);
        let class = v.last();
        assert(class == v[v.len() - 1]);
        assert(!class_names(v[v.len() - 1], x));
        assert forall|i: int| 0 <= i < class.methods.len() implies !#[trigger] function_names(
            class.methods[i],
            x,
        ) by {
            lemma_functions_free(class.methods, x, i);
        }
        lemma_methods_of_free(class.name, class.methods, x);
        let a = method_candidates(front);
        let b = methods_of(class.name, class.methods);
        assert forall|i: int| 0 <= i < (a + b).len() implies stmts_free(
            (#[trigger] (a + b)[i]).1.body,
            x,
        ) by {
            if i < a.len() {
                assert((a + b)[i] == a[i]);
            } else {
                assert((a + b)[i] == b[i - a.len()]);
            }
        }
    }
}

proof fn lemma_inline_in_free(f: FunctionView, c: CandidatesView, n: nat, depth: nat, x: LocalId)
    requires
        !function_names(f, x),
        candidates_free(c, x),
        x < n,
    ensures
        inline_in(f, c, n, depth) matches Some((g, next)) ==> !function_names(g, x) && n <= next,
{
    lemma_inline_stmts_free(f.body, c, param_types(f.params), n, depth, x);
}

pub open spec fn functions_free(v: Seq<FunctionView>, x: LocalId) -> bool {
    forall|i: int| 0 <= i < v.len() ==> !#[trigger] function_names(v[i], x)
}

proof fn lemma_functions_free_push(v: Seq<FunctionView>, f: FunctionView, x: LocalId)
    requires
        functions_free(v, x),
        !function_names(f, x),
    ensures
        functions_free(v.push(f), x),
{
    let all = v.push(f);
    assert forall|i: int| 0 <= i < all.len() implies !#[trigger] function_names(all[i], x) by {
        if i < v.len() {
            assert(all[i] == v[i]);
            assert(!function_names(v[i], x));
        }
    }
}

proof fn lemma_inline_functions_free(
    v: Seq<FunctionView>,
    k: nat,
    c: CandidatesView,
    n: nat,
    depth: nat,
    x: LocalId,
)
    requires
        functions_free(v, x),
        candidates_free(c, x),
        x < n,
    ensures
        inline_in_functions(v, k, c, n, depth) matches Some((out, next)) ==> functions_free(out, x)
            && n <= next,
    decreases k,
{
    if 0 < k <= v.len() {
        lemma_inline_functions_free(v, (k - 1) as nat, c, n, depth, x);
        let f = v[k - 1];
        assert(!function_names(v[k - 1], x));
        match inline_in_functions(v, (k - 1) as nat, c, n, depth) {
            Some((front, n1)) => {
                lemma_functions_free_push(front, f, x);
                lemma_inline_in_free(f, c, n1, depth, x);
                match inline_in(f, c, n1, depth) {
                    Some((g, _)) => lemma_functions_free_push(front, g, x),
                    None => {},
                }
            },
            None => {},
        }
    }
}

proof fn lemma_inline_methods_free(
    class: Seq<char>,
    v: Seq<FunctionView>,
    k: nat,
    c: CandidatesView,
    n: nat,
    depth: nat,
    x: LocalId,
)
    requires
        functions_free(v, x),
        candidates_free(c, x),
        x < n,
    ensures
        inline_in_methods(class, v, k, c, n, depth) matches Some((out, next)) ==> functions_free(
            out,
            x,
        ) && n <= next,
    decreases k,
{
    if 0 < k <= v.len() {
        lemma_inline_methods_free(class, v, (k - 1) as nat, c, n, depth, x);
        let f = v[k - 1];
        assert(!function_names(v[k - 1], x));
        match inline_in_methods(class, v, (k - 1) as nat, c, n, depth) {
            Some((front, n1)) => {
                lemma_functions_free_push(front, f, x);
                lemma_inline_in_free(f, c, n1, depth, x);
                match inline_in(f, c, n1, depth) {
                    Some((g, _)) => lemma_functions_free_push(front, g, x),
                    None => {},
                }
            },
            None => {},
        }
    }
}

pub open spec fn classes_free(v: Seq<ClassView>, x: LocalId) -> bool {
    forall|i: int| 0 <= i < v.len() ==> !#[trigger] class_names(v[i], x)
}

proof fn lemma_inline_classes_free(
    v: Seq<ClassView>,
    k: nat,
    c: CandidatesView,
    n: nat,
    depth: nat,
    x: LocalId,
)
    requires
        classes_free(v, x),
        candidates_free(c, x),
        x < n,
    ensures
        inline_in_classes(v, k, c, n, depth) matches Some((out, next)) ==> classes_free(out, x)
            && n <= next,
    decreases k,
{
    if 0 < k <= v.len() {
        lemma_inline_classes_free(v, (k - 1) as nat, c, n, depth, x);
        let class = v[k - 1];
        assert(!class_names(v[k - 1], x));
        assert forall|i: int| 0 <= i < class.methods.len() implies !#[trigger] function_names(
            class.methods[i],
            x,
        ) by {
            lemma_functions_free(class.methods, x, i);
        }
        match inline_in_classes(v, (k - 1) as nat, c, n, depth) {
            Some((front, n1)) => {
                lemma_inline_methods_free(
                    class.name,
                    class.methods,
                    class.methods.len(),
                    c,
                    n1,
                    depth,
                    x,
                );
                match inline_in_methods(class.name, class.methods, class.methods.len(), c, n1, depth) {
                    Some((methods, _)) => {
                        let new = ClassView { methods, ..class };
                        assert(!functions_name(methods, x));
                        let all = front.push(new);
                        assert forall|i: int| 0 <= i < all.len() implies !#[trigger] class_names(
                            all[i],
                            x,
                        ) by {
                            if i < front.len() {
                                assert(all[i] == front[i]);
                                assert(!class_names(front[i], x));
                            }
                        }
                    },
                    None => {},
                }
            },
            None => {},
        }
    }
}

/// Rewriting the multiplications keeps the largest id.
pub proof fn lemma_imul_max(m: ModuleView, ids: Set<FuncId>)
    ensures
        module_max(imul_in_module(m, ids)) == module_max(m),
{
    let m1 = imul_in_module(m, ids);
    assert forall|y: LocalId| #[trigger] module_names(m1, y) == module_names(m, y) by {
        lemma_imul_module(m, ids, y);
    }
    lemma_module_max_exists(m);
    assert(max_in_module(module_max(m), m1));
    lemma_module_max(module_max(m), m1);
}

pub proof fn lemma_candidates_free(m: ModuleView, x: LocalId)
    requires
        !module_names(m, x),
    ensures
        candidates_free(candidates_of(m), x),
{
    let m1 = imul_in_module(m, imul_ids(m.functions));
    lemma_imul_module(m, imul_ids(m.functions), x);
    assert forall|i: int| 0 <= i < m1.functions.len() implies !#[trigger] function_names(
        m1.functions[i],
        x,
    ) by {
        lemma_functions_free(m1.functions, x, i);
    }
    lemma_func_candidates_free(m1.functions, x);
    assert forall|i: int| 0 <= i < m1.classes.len() implies !#[trigger] class_names(
        m1.classes[i],
        x,
    ) by {
        assert(!classes_name(m1.classes, x));
    }
    lemma_method_candidates_free(m1.classes, x);
}

proof fn lemma_init_free(m: ModuleView, c: CandidatesView, depth: nat, x: LocalId)
    requires
        !module_names(m, x),
        candidates_free(c, x),
        x <= module_max(m),
    ensures
        inline_init(m, c, depth) matches Some(out) ==> !module_names(out, x),
{
    let init_c = CandidatesView { funcs: pure_only(c.funcs), ..c };
    assert(candidates_free(init_c, x)) by {
        assert forall|id: FuncId| init_c.funcs.contains_key(id) implies stmts_free(
            (#[trigger] init_c.funcs[id]).body,
            x,
        ) by {
            assert(stmts_free(c.funcs[id].body, x));
        }
    }
    lemma_inline_stmts_free(m.init, init_c, Map::empty(), module_max(m) as nat + 1, depth, x);
}

proof fn lemma_rest_free(m: ModuleView, c: CandidatesView, n: nat, depth: nat, x: LocalId)
    requires
        !module_names(m, x),
        candidates_free(c, x),
        x < n,
    ensures
        inline_rest(m, c, n, depth) matches Some(out) ==> !module_names(out, x),
{
    assert forall|i: int| 0 <= i < m.functions.len() implies !#[trigger] function_names(
        m.functions[i],
        x,
    ) by {
        lemma_functions_free(m.functions, x, i);
    }
    lemma_inline_functions_free(m.functions, m.functions.len(), c, n, depth, x);
    assert forall|i: int| 0 <= i < m.classes.len() implies !#[trigger] class_names(
        m.classes[i],
        x,
    ) by {
        assert(!classes_name(m.classes, x));
    }
    match inline_in_functions(m.functions, m.functions.len(), c, n, depth) {
        Some((functions, n1)) => {
            assert(!functions_name(functions, x));
            lemma_inline_classes_free(m.classes, m.classes.len(), c, n1, depth, x);
        },
        None => {},
    }
}

/// A variable that the pass brings in is new: whatever id the module names once it
/// is done, it named before, or the id is larger than all that it named.
pub proof fn law_new_ids_are_fresh(m: ModuleView, depth: nat, x: LocalId)
    requires
        inline_module(m, depth) is Some,
        module_names(inline_module(m, depth)->0, x),
    ensures
        module_names(m, x) || x > module_max(m),
{
    if !module_names(m, x) && x <= module_max(m) {
        let ids = imul_ids(m.functions);
        let m1 = imul_in_module(m, ids);
        let c = candidates_of(m);
        lemma_imul_module(m, ids, x);
        lemma_imul_max(m, ids);
        lemma_candidates_free(m, x);
        lemma_init_free(m1, c, depth, x);
        let m2 = inline_init(m1, c, depth)->0;
        lemma_rest_free(m2, c, first_free(m1, m2), depth, x);
    }
}

} // verus!

//! What holds of the inlining pass as a whole.

use crate::hir::{FuncId, LocalId};
use crate::inline::calls::{
    inline_children, inline_expr, inline_first, inline_head, inline_stmt, inline_stmts, noted,
    returns_early, searched, ExprRun, KidsRun,
};
use crate::inline::candidate::inlinable;
use crate::inline::expand::{find_method, full_call, simple_call, CandidatesView};
use crate::inline::imul::imul_polyfill;
use crate::inline::module_ids::module_max;
use crate::inline::pass::{
    candidates_of, first_free, func_candidates, imul_ids, imul_in_accessors, imul_in_class,
    imul_in_module, inline_in_classes, inline_in_functions, inline_in_methods, inline_init,
    inline_module, method_candidates, methods_of, param_types, pure_only, with_body,
};
use crate::inline::scan::{stmts_have, NodeTest};
use crate::model::{ClassView, ExprView, FunctionView, ModuleView, StmtView};
use crate::rebuild::lemma_rebuild_same;
use crate::rewrite::Rewrite;
use crate::rewrite_laws::{law_idle_rewrite_keeps_stmts, law_nothing_is_left_in_stmts};
use crate::walk::{children, lemma_children_smaller};
use vstd::prelude::*;

verus! {

// ---------------------------------------------------------------------------
// The depth
// ---------------------------------------------------------------------------

proof fn lemma_expr_depth(
    e: ExprView,
    c: CandidatesView,
    types: Map<LocalId, Seq<char>>,
    n: nat,
    d: nat,
    more: nat,
)
    requires
        d <= more,
        inline_expr(e, c, types, n, d) is Some,
    ensures
        inline_expr(e, c, types, n, more) == inline_expr(e, c, types, n, d),
    decreases d, e, 1nat, 0nat,
{
    match simple_call(e, c, types, n) {
        Some(simple) => {
            lemma_expr_depth(
                simple.result,
                c,
                types,
                simple.next,
                (d - 1) as nat,
                (more - 1) as nat,
            );
        },
        None => {
            if searched(e) {
                lemma_children_depth(e, children(e).len(), c, types, n, d, more);
            }
        },
    }
}

proof fn lemma_children_depth(
    e: ExprView,
    k: nat,
    c: CandidatesView,
    types: Map<LocalId, Seq<char>>,
    n: nat,
    d: nat,
    more: nat,
)
    requires
        d <= more,
        inline_children(e, k, c, types, n, d) is Some,
    ensures
        inline_children(e, k, c, types, n, more) == inline_children(e, k, c, types, n, d),
    decreases d, e, 0nat, k,
{
    if 0 < k <= children(e).len() {
        lemma_children_smaller(e, k - 1);
        lemma_children_depth(e, (k - 1) as nat, c, types, n, d, more);
        let front = inline_children(e, (k - 1) as nat, c, types, n, d)->0;
        lemma_expr_depth(children(e)[k - 1], c, types, front.next, d, more);
    }
}

proof fn lemma_opt_depth(
    o: Option<ExprView>,
    c: CandidatesView,
    types: Map<LocalId, Seq<char>>,
    n: nat,
    d: nat,
    more: nat,
)
    requires
        d <= more,
        inline_head(o, c, types, n, d) is Some,
    ensures
        inline_head(o, c, types, n, more) == inline_head(o, c, types, n, d),
{
    if o is Some {
        lemma_expr_depth(o->0, c, types, n, d, more);
    }
}

proof fn lemma_stmt_depth(
    s: StmtView,
    c: CandidatesView,
    known: Map<LocalId, Seq<char>>,
    n: nat,
    d: nat,
    more: nat,
)
    requires
        d <= more,
        inline_stmt(s, c, known, n, d) is Some,
    ensures
        inline_stmt(s, c, known, n, more) == inline_stmt(s, c, known, n, d),
    decreases s, 0nat,
{
    let types = noted(s, known);
    match s {
        StmtView::Expr(e) => {
            match full_call(e, c, types, n) {
                Some((body, n1)) => {
                    if returns_early(body) {
                        lemma_expr_depth(e, c, types, n1, d, more);
                    }
                },
                None => lemma_expr_depth(e, c, types, n, d, more),
            }
        },
        StmtView::Let { init: Some(e), .. } => lemma_expr_depth(e, c, types, n, d, more),
        StmtView::Return(Some(e)) => lemma_expr_depth(e, c, types, n, d, more),
        StmtView::Throw(e) => lemma_expr_depth(e, c, types, n, d, more),
        StmtView::If { condition, then_branch, else_branch } => {
            lemma_expr_depth(condition, c, types, n, d, more);
            let cond = inline_expr(condition, c, types, n, d)->0;
            lemma_stmts_depth(then_branch, c, types, cond.next, d, more);
            let yes = inline_stmts(then_branch, c, types, cond.next, d)->0;
            match else_branch {
                Some(b) => lemma_stmts_depth(b, c, yes.types, yes.next, d, more),
                None => {},
            }
        },
        StmtView::While { condition, body } => {
            lemma_expr_depth(condition, c, types, n, d, more);
            let cond = inline_expr(condition, c, types, n, d)->0;
            lemma_stmts_depth(body, c, types, cond.next, d, more);
        },
        StmtView::For { init, condition, update, body } => {
            let (types1, n1) = match init {
                Some(i) => {
                    lemma_stmt_depth(*i, c, types, n, d, more);
                    let run = inline_stmt(*i, c, types, n, d)->0;
                    (run.types, run.next)
                },
                None => (types, n),
            };
            lemma_opt_depth(condition, c, types1, n1, d, more);
            let (_, n2) = inline_head(condition, c, types1, n1, d)->0;
            lemma_opt_depth(update, c, types1, n2, d, more);
            let (_, n3) = inline_head(update, c, types1, n2, d)->0;
            lemma_stmts_depth(body, c, types1, n3, d, more);
        },
        _ => {},
    }
}

proof fn lemma_stmts_depth(
    v: Seq<StmtView>,
    c: CandidatesView,
    types: Map<LocalId, Seq<char>>,
    n: nat,
    d: nat,
    more: nat,
)
    requires
        d <= more,
        inline_stmts(v, c, types, n, d) is Some,
    ensures
        inline_stmts(v, c, types, n, more) == inline_stmts(v, c, types, n, d),
    decreases v, v.len() + 1,
{
    lemma_first_depth(v, v.len(), c, types, n, d, more);
}

proof fn lemma_first_depth(
    v: Seq<StmtView>,
    k: nat,
    c: CandidatesView,
    types: Map<LocalId, Seq<char>>,
    n: nat,
    d: nat,
    more: nat,
)
    requires
        d <= more,
        inline_first(v, k, c, types, n, d) is Some,
    ensures
        inline_first(v, k, c, types, n, more) == inline_first(v, k, c, types, n, d),
    decreases v, k,
{
    if 0 < k <= v.len() {
        lemma_first_depth(v, (k - 1) as nat, c, types, n, d, more);
        let front = inline_first(v, (k - 1) as nat, c, types, n, d)->0;
        lemma_stmt_depth(v[k - 1], c, front.types, front.next, d, more);
    }
}

proof fn lemma_functions_depth(
    v: Seq<FunctionView>,
    k: nat,
    c: CandidatesView,
    n: nat,
    d: nat,
    more: nat,
)
    requires
        d <= more,
        inline_in_functions(v, k, c, n, d) is Some,
    ensures
        inline_in_functions(v, k, c, n, more) == inline_in_functions(v, k, c, n, d),
    decreases k,
{
    if 0 < k <= v.len() {
        lemma_functions_depth(v, (k - 1) as nat, c, n, d, more);
        let (_, n1) = inline_in_functions(v, (k - 1) as nat, c, n, d)->0;
        let f = v[k - 1];
        if !c.funcs.contains_key(f.id) {
            lemma_stmts_depth(f.body, c, param_types(f.params), n1, d, more);
        }
    }
}

proof fn lemma_methods_depth(
    class: Seq<char>,
    v: Seq<FunctionView>,
    k: nat,
    c: CandidatesView,
    n: nat,
    d: nat,
    more: nat,
)
    requires
        d <= more,
        inline_in_methods(class, v, k, c, n, d) is Some,
    ensures
        inline_in_methods(class, v, k, c, n, more) == inline_in_methods(class, v, k, c, n, d),
    decreases k,
{
    if 0 < k <= v.len() {
        lemma_methods_depth(class, v, (k - 1) as nat, c, n, d, more);
        let (_, n1) = inline_in_methods(class, v, (k - 1) as nat, c, n, d)->0;
        let f = v[k - 1];
        if find_method(c.methods, class, f.name) is None {
            lemma_stmts_depth(f.body, c, param_types(f.params), n1, d, more);
        }
    }
}

proof fn lemma_classes_depth(
    v: Seq<ClassView>,
    k: nat,
    c: CandidatesView,
    n: nat,
    d: nat,
    more: nat,
)
    requires
        d <= more,
        inline_in_classes(v, k, c, n, d) is Some,
    ensures
        inline_in_classes(v, k, c, n, more) == inline_in_classes(v, k, c, n, d),
    decreases k,
{
    if 0 < k <= v.len() {
        lemma_classes_depth(v, (k - 1) as nat, c, n, d, more);
        let (_, n1) = inline_in_classes(v, (k - 1) as nat, c, n, d)->0;
        let class = v[k - 1];
        lemma_methods_depth(class.name, class.methods, class.methods.len(), c, n1, d, more);
    }
}

/// The depth decides whether there is a result, not which: a module that one
/// depth suffices for comes out the same at every larger one.
pub proof fn law_depth_decides_only_success(m: ModuleView, d: nat, more: nat)
    requires
        d <= more,
        inline_module(m, d) is Some,
    ensures
        inline_module(m, more) == inline_module(m, d),
{
    let m1 = imul_in_module(m, imul_ids(m.functions));
    let c = candidates_of(m);
    let init_c = CandidatesView { funcs: pure_only(c.funcs), ..c };
    lemma_stmts_depth(m1.init, init_c, Map::empty(), module_max(m1) as nat + 1, d, more);
    let m2 = inline_init(m1, c, d)->0;
    let n = first_free(m1, m2);
    lemma_functions_depth(m2.functions, m2.functions.len(), c, n, d, more);
    let (_, n1) = inline_in_functions(m2.functions, m2.functions.len(), c, n, d)->0;
    lemma_classes_depth(m2.classes, m2.classes.len(), c, n1, d, more);
}

// ---------------------------------------------------------------------------
// Nothing to inline
// ---------------------------------------------------------------------------

/// Whether there is nothing that a call could be replaced with.
pub open spec fn no_candidates(c: CandidatesView) -> bool {
    c.funcs == Map::<FuncId, FunctionView>::empty() && c.methods.len() == 0
}

proof fn lemma_expr_same(
    e: ExprView,
    c: CandidatesView,
    types: Map<LocalId, Seq<char>>,
    n: nat,
    depth: nat,
)
    requires
        no_candidates(c),
    ensures
        inline_expr(e, c, types, n, depth) == Some(
            ExprRun { hoisted: Seq::empty(), expr: e, next: n },
        ),
    decreases e, 1nat, 0nat,
{
    assert(simple_call(e, c, types, n) is None);
    if searched(e) {
        lemma_children_same(e, children(e).len(), c, types, n, depth);
        assert(children(e).take(children(e).len() as int) =~= children(e));
        lemma_rebuild_same(e);
    }
}

proof fn lemma_children_same(
    e: ExprView,
    k: nat,
    c: CandidatesView,
    types: Map<LocalId, Seq<char>>,
    n: nat,
    depth: nat,
)
    requires
        no_candidates(c),
        k <= children(e).len(),
    ensures
        inline_children(e, k, c, types, n, depth) == Some(
            KidsRun { hoisted: Seq::empty(), kids: children(e).take(k as int), next: n },
        ),
    decreases e, 0nat, k,
{
    if k > 0 {
        lemma_children_same(e, (k - 1) as nat, c, types, n, depth);
        lemma_children_smaller(e, k - 1);
        lemma_expr_same(children(e)[k - 1], c, types, n, depth);
        assert(children(e).take(k - 1).push(children(e)[k - 1]) =~= children(e).take(k as int));
        assert(Seq::<StmtView>::empty() + Seq::<StmtView>::empty() =~= Seq::<StmtView>::empty());
    } else {
        assert(children(e).take(0) =~= Seq::empty());
    }
}

proof fn lemma_opt_same(
    o: Option<ExprView>,
    c: CandidatesView,
    types: Map<LocalId, Seq<char>>,
    n: nat,
    depth: nat,
)
    requires
        no_candidates(c),
    ensures
        inline_head(o, c, types, n, depth) == Some((o, n)),
{
    match o {
        Some(e) => lemma_expr_same(e, c, types, n, depth),
        None => {},
    }
}

proof fn lemma_stmt_same(
    s: StmtView,
    c: CandidatesView,
    known: Map<LocalId, Seq<char>>,
    n: nat,
    depth: nat,
)
    requires
        no_candidates(c),
    ensures
        inline_stmt(s, c, known, n, depth) matches Some(run) && run.out == seq![s] && run.next == n,
    decreases s, 0nat,
{
    let types = noted(s, known);
    assert(Seq::<StmtView>::empty().push(s) =~= seq![s]);
    match s {
        StmtView::Expr(e) => {
            assert(full_call(e, c, types, n) is None);
            lemma_expr_same(e, c, types, n, depth);
        },
        StmtView::Let { init: Some(e), .. } => lemma_expr_same(e, c, types, n, depth),
        StmtView::Return(Some(e)) => lemma_expr_same(e, c, types, n, depth),
        StmtView::Throw(e) => lemma_expr_same(e, c, types, n, depth),
        StmtView::If { condition, then_branch, else_branch } => {
            lemma_expr_same(condition, c, types, n, depth);
            lemma_stmts_same(then_branch, c, types, n, depth);
            let yes = inline_stmts(then_branch, c, types, n, depth)->0;
            match else_branch {
                Some(b) => lemma_stmts_same(b, c, yes.types, n, depth),
                None => {},
            }
        },
        StmtView::While { condition, body } => {
            lemma_expr_same(condition, c, types, n, depth);
            lemma_stmts_same(body, c, types, n, depth);
        },
        StmtView::For { init, condition, update, body } => {
            let types1 = match init {
                Some(i) => {
                    lemma_stmt_same(*i, c, types, n, depth);
                    inline_stmt(*i, c, types, n, depth)->0.types
                },
                None => types,
            };
            lemma_opt_same(condition, c, types1, n, depth);
            lemma_opt_same(update, c, types1, n, depth);
            lemma_stmts_same(body, c, types1, n, depth);
        },
        _ => {},
    }
}

proof fn lemma_stmts_same(
    v: Seq<StmtView>,
    c: CandidatesView,
    types: Map<LocalId, Seq<char>>,
    n: nat,
    depth: nat,
)
    requires
        no_candidates(c),
    ensures
        inline_stmts(v, c, types, n, depth) matches Some(run) && run.out == v && run.next == n,
    decreases v, v.len() + 1,
{
    lemma_first_same(v, v.len(), c, types, n, depth);
    assert(v.take(v.len() as int) =~= v);
}

proof fn lemma_first_same(
    v: Seq<StmtView>,
    k: nat,
    c: CandidatesView,
    types: Map<LocalId, Seq<char>>,
    n: nat,
    depth: nat,
)
    requires
        no_candidates(c),
        k <= v.len(),
    ensures
        inline_first(v, k, c, types, n, depth) matches Some(run) && run.out == v.take(k as int)
            && run.next == n,
    decreases v, k,
{
    if k > 0 {
        lemma_first_same(v, (k - 1) as nat, c, types, n, depth);
        let front = inline_first(v, (k - 1) as nat, c, types, n, depth)->0;
        lemma_stmt_same(v[k - 1], c, front.types, n, depth);
        assert(v.take(k - 1) + seq![v[k - 1]] =~= v.take(k as int));
    } else {
        assert(v.take(0) =~= Seq::empty());
    }
}

proof fn lemma_functions_same(
    v: Seq<FunctionView>,
    k: nat,
    c: CandidatesView,
    n: nat,
    depth: nat,
)
    requires
        no_candidates(c),
        k <= v.len(),
    ensures
        inline_in_functions(v, k, c, n, depth) == Some((v.take(k as int), n)),
    decreases k,
{
    if k > 0 {
        lemma_functions_same(v, (k - 1) as nat, c, n, depth);
        let f = v[k - 1];
        lemma_stmts_same(f.body, c, param_types(f.params), n, depth);
        assert(v.take(k - 1).push(f) =~= v.take(k as int));
    } else {
        assert(v.take(0) =~= Seq::empty());
    }
}

proof fn lemma_methods_same(
    class: Seq<char>,
    v: Seq<FunctionView>,
    k: nat,
    c: CandidatesView,
    n: nat,
    depth: nat,
)
    requires
        no_candidates(c),
        k <= v.len(),
    ensures
        inline_in_methods(class, v, k, c, n, depth) == Some((v.take(k as int), n)),
    decreases k,
{
    if k > 0 {
        lemma_methods_same(class, v, (k - 1) as nat, c, n, depth);
        let f = v[k - 1];
        lemma_stmts_same(f.body, c, param_types(f.params), n, depth);
        assert(v.take(k - 1).push(f) =~= v.take(k as int));
    } else {
        assert(v.take(0) =~= Seq::empty());
    }
}

proof fn lemma_classes_same(v: Seq<ClassView>, k: nat, c: CandidatesView, n: nat, depth: nat)
    requires
        no_candidates(c),
        k <= v.len(),
    ensures
        inline_in_classes(v, k, c, n, depth) == Some((v.take(k as int), n)),
    decreases k,
{
    if k > 0 {
        lemma_classes_same(v, (k - 1) as nat, c, n, depth);
        let class = v[k - 1];
        lemma_methods_same(class.name, class.methods, class.methods.len(), c, n, depth);
        assert(class.methods.take(class.methods.len() as int) =~= class.methods);
        assert(v.take(k - 1).push(class) =~= v.take(k as int));
    } else {
        assert(v.take(0) =~= Seq::empty());
    }
}

/// Whether none of the functions can be inlined or stands for a multiplication.
pub open spec fn none_inlinable(v: Seq<FunctionView>) -> bool {
    forall|i: int|
        0 <= i < v.len() ==> !inlinable(#[trigger] v[i]) && !imul_polyfill(v[i])
}

/// Whether no method of the classes can be inlined.
pub open spec fn no_methods_inlinable(v: Seq<ClassView>) -> bool {
    forall|i: int, j: int|
        0 <= i < v.len() && 0 <= j < v[i].methods.len() ==> !inlinable(
            #[trigger] v[i].methods[j],
        )
}

proof fn lemma_no_funcs(v: Seq<FunctionView>)
    requires
        none_inlinable(v),
    ensures
        func_candidates(v) == Map::<FuncId, FunctionView>::empty(),
        imul_ids(v) == Set::<FuncId>::empty(),
    decreases v.len(),
{
    assert(imul_ids(v) =~= Set::<FuncId>::empty());
    if v.len() > 0 {
        assert(v[v.len() - 1] == v.last());
        let front = v.drop_last();
        assert forall|i: int| 0 <= i < front.len() implies !inlinable(#[trigger] front[i])
            && !imul_polyfill(front[i]) by {
            assert(front[i] == v[i]);
        }
        lemma_no_funcs(front);
    }
}

proof fn lemma_no_methods_of(class: Seq<char>, v: Seq<FunctionView>)
    requires
        forall|i: int| 0 <= i < v.len() ==> !inlinable(#[trigger] v[i]),
    ensures
        methods_of(class, v).len() == 0,
    decreases v.len(),
{
    if v.len() > 0 {
        assert(v[v.len() - 1] == v.last());
        assert forall|i: int| 0 <= i < v.drop_last().len() implies !inlinable(
            #[trigger] v.drop_last()[i],
        ) by {
            assert(v.drop_last()[i] == v[i]);
        }
        lemma_no_methods_of(class, v.drop_last());
    }
}

proof fn lemma_no_methods(v: Seq<ClassView>)
    requires
        no_methods_inlinable(v),
    ensures
        method_candidates(v).len() == 0,
    decreases v.len(),
{
    if v.len() > 0 {
        let class = v.last();
        assert(v[v.len() - 1] == class);
        assert forall|j: int| 0 <= j < class.methods.len() implies !inlinable(
            #[trigger] class.methods[j],
        ) by {
            assert(!inlinable(v[v.len() - 1].methods[j]));
        }
        lemma_no_methods_of(class.name, class.methods);
        let front = v.drop_last();
        assert forall|i: int, j: int|
            0 <= i < front.len() && 0 <= j < front[i].methods.len() implies !inlinable(
            #[trigger] front[i].methods[j],
        ) by {
            assert(!inlinable(v[i].methods[j]));
        }
        lemma_no_methods(front);
    }
}

proof fn lemma_accessors_same(v: Seq<(Seq<char>, FunctionView)>)
    ensures
        imul_in_accessors(v, Set::empty()) == v,
{
    let none = Set::<FuncId>::empty();
    let w = imul_in_accessors(v, none);
    assert forall|i: int| 0 <= i < v.len() implies w[i] == #[trigger] v[i] by {
        law_idle_rewrite_keeps_stmts(v[i].1.body, Rewrite::Imul(none));
    }
    assert(w =~= v);
}

/// Without multiplications there is nothing to rewrite.
proof fn lemma_imul_same(m: ModuleView)
    ensures
        imul_in_module(m, Set::empty()) == m,
{
    let none = Set::<FuncId>::empty();
    let m1 = imul_in_module(m, none);
    law_idle_rewrite_keeps_stmts(m.init, Rewrite::Imul(none));
    assert forall|i: int| 0 <= i < m.functions.len() implies m1.functions[i]
        == #[trigger] m.functions[i] by {
        law_idle_rewrite_keeps_stmts(m.functions[i].body, Rewrite::Imul(none));
    }
    assert(m1.functions =~= m.functions);
    assert forall|i: int| 0 <= i < m.classes.len() implies m1.classes[i]
        == #[trigger] m.classes[i] by {
        let class = m.classes[i];
        match class.constructor {
            Some(f) => law_idle_rewrite_keeps_stmts(f.body, Rewrite::Imul(none)),
            None => {},
        }
        assert forall|j: int| 0 <= j < class.methods.len() implies m1.classes[i].methods[j]
            == #[trigger] class.methods[j] by {
            law_idle_rewrite_keeps_stmts(class.methods[j].body, Rewrite::Imul(none));
        }
        assert(m1.classes[i].methods =~= class.methods);
        lemma_accessors_same(class.getters);
        lemma_accessors_same(class.setters);
        let statics = class.static_methods;
        assert forall|j: int| 0 <= j < statics.len() implies m1.classes[i].static_methods[j]
            == #[trigger] statics[j] by {
            law_idle_rewrite_keeps_stmts(statics[j].body, Rewrite::Imul(none));
        }
        assert(m1.classes[i].static_methods =~= statics);
    }
    assert(m1.classes =~= m.classes);
}

/// A module that has nothing to inline comes out as it went in, at any depth, as
/// long as it leaves an id to count from.
pub proof fn law_nothing_to_inline(m: ModuleView, depth: nat)
    requires
        none_inlinable(m.functions),
        no_methods_inlinable(m.classes),
        module_max(m) < u32::MAX,
    ensures
        inline_module(m, depth) == Some(m),
{
    lemma_no_funcs(m.functions);
    lemma_imul_same(m);
    lemma_no_methods(m.classes);
    let c = CandidatesView {
        funcs: func_candidates(m.functions),
        methods: method_candidates(m.classes),
    };
    let init_c = CandidatesView { funcs: pure_only(c.funcs), ..c };
    assert(init_c.funcs =~= Map::empty());
    lemma_stmts_same(m.init, init_c, Map::empty(), module_max(m) as nat + 1, depth);
    let n = first_free(m, m);
    lemma_functions_same(m.functions, m.functions.len(), c, n, depth);
    assert(m.functions.take(m.functions.len() as int) =~= m.functions);
    lemma_classes_same(m.classes, m.classes.len(), c, n, depth);
    assert(m.classes.take(m.classes.len() as int) =~= m.classes);
}

// ---------------------------------------------------------------------------
// Multiplications
// ---------------------------------------------------------------------------

/// Whether the body of the function holds no call of the multiplications.
pub open spec fn multiplies_directly(f: FunctionView, ids: Set<FuncId>) -> bool {
    !stmts_have(f.body, NodeTest::CallsImul(ids))
}

/// Whether no body of the class holds such a call.
pub open spec fn class_multiplies_directly(c: ClassView, ids: Set<FuncId>) -> bool {
    &&& c.constructor matches Some(f) ==> multiplies_directly(f, ids)
    &&& forall|i: int|
        0 <= i < c.methods.len() ==> multiplies_directly(#[trigger] c.methods[i], ids)
    &&& forall|i: int|
        0 <= i < c.getters.len() ==> multiplies_directly((#[trigger] c.getters[i]).1, ids)
    &&& forall|i: int|
        0 <= i < c.setters.len() ==> multiplies_directly((#[trigger] c.setters[i]).1, ids)
    &&& forall|i: int|
        0 <= i < c.static_methods.len() ==> multiplies_directly(
            #[trigger] c.static_methods[i],
            ids,
        )
}

proof fn lemma_class_multiplies_directly(c: ClassView, ids: Set<FuncId>)
    ensures
        class_multiplies_directly(imul_in_class(c, ids), ids),
{
    let r = Rewrite::Imul(ids);
    let c1 = imul_in_class(c, ids);
    match c.constructor {
        Some(f) => law_nothing_is_left_in_stmts(f.body, r),
        None => {},
    }
    assert forall|i: int| 0 <= i < c1.methods.len() implies multiplies_directly(
        #[trigger] c1.methods[i],
        ids,
    ) by {
        law_nothing_is_left_in_stmts(c.methods[i].body, r);
    }
    assert forall|i: int| 0 <= i < c1.getters.len() implies multiplies_directly(
        (#[trigger] c1.getters[i]).1,
        ids,
    ) by {
        law_nothing_is_left_in_stmts(c.getters[i].1.body, r);
    }
    assert forall|i: int| 0 <= i < c1.setters.len() implies multiplies_directly(
        (#[trigger] c1.setters[i]).1,
        ids,
    ) by {
        law_nothing_is_left_in_stmts(c.setters[i].1.body, r);
    }
    assert forall|i: int| 0 <= i < c1.static_methods.len() implies multiplies_directly(
        #[trigger] c1.static_methods[i],
        ids,
    ) by {
        law_nothing_is_left_in_stmts(c.static_methods[i].body, r);
    }
}

/// Before anything is inlined, no body holds a two-argument call of a multiplication
/// any more: not the init statements, no function but the multiplications themselves,
/// nothing in a class, and so no function or method that is inlined elsewhere.
pub proof fn law_multiplications_come_first(m: ModuleView)
    ensures
        ({
            let ids = imul_ids(m.functions);
            let m1 = imul_in_module(m, ids);
            let c = candidates_of(m);
            &&& !stmts_have(m1.init, NodeTest::CallsImul(ids))
            &&& forall|i: int|
                0 <= i < m1.functions.len() && !ids.contains(m1.functions[i].id)
                    ==> multiplies_directly(#[trigger] m1.functions[i], ids)
            &&& forall|i: int|
                0 <= i < m1.classes.len() ==> class_multiplies_directly(
                    #[trigger] m1.classes[i],
                    ids,
                )
            &&& forall|id: FuncId|
                c.funcs.contains_key(id) && !ids.contains(id) ==> multiplies_directly(
                    #[trigger] c.funcs[id],
                    ids,
                )
            &&& forall|i: int|
                0 <= i < c.methods.len() ==> multiplies_directly((#[trigger] c.methods[i]).1, ids)
        }),
{
    let ids = imul_ids(m.functions);
    let r = Rewrite::Imul(ids);
    let m1 = imul_in_module(m, ids);
    let c = candidates_of(m);
    law_nothing_is_left_in_stmts(m.init, r);
    assert forall|i: int|
        0 <= i < m1.functions.len() && !ids.contains(
            m1.functions[i].id,
        ) implies multiplies_directly(#[trigger] m1.functions[i], ids) by {
        law_nothing_is_left_in_stmts(m.functions[i].body, r);
    }
    assert forall|i: int| 0 <= i < m1.classes.len() implies class_multiplies_directly(
        #[trigger] m1.classes[i],
        ids,
    ) by {
        lemma_class_multiplies_directly(m.classes[i], ids);
    }
    assert forall|id: FuncId|
        c.funcs.contains_key(id) && !ids.contains(id) implies multiplies_directly(
        #[trigger] c.funcs[id],
        ids,
    ) by {
        lemma_func_candidate_source(m1.functions, id);
    }
    assert forall|i: int| 0 <= i < c.methods.len() implies multiplies_directly(
        (#[trigger] c.methods[i]).1,
        ids,
    ) by {
        lemma_method_candidate_source(m1.classes, i);
    }
}

// ---------------------------------------------------------------------------
// Where candidates come from
// ---------------------------------------------------------------------------

/// A function that is inlined elsewhere is one of the functions.
pub proof fn lemma_func_candidate_source(v: Seq<FunctionView>, id: FuncId)
    requires
        func_candidates(v).contains_key(id),
    ensures
        exists|i: int|
            0 <= i < v.len() && #[trigger] v[i] == func_candidates(v)[id] && v[i].id == id,
    decreases v.len(),
{
    if v.len() > 0 {
        let f = v.last();
        assert(v[v.len() - 1] == f);
        if !(inlinable(f) && f.id == id) {
            let front = v.drop_last();
            lemma_func_candidate_source(front, id);
            let i = choose|i: int|
                0 <= i < front.len() && #[trigger] front[i] == func_candidates(front)[id]
                    && front[i].id == id;
            assert(v[i] == front[i]);
        }
    }
}

proof fn lemma_method_of_source(class: Seq<char>, v: Seq<FunctionView>, i: int)
    requires
        0 <= i < methods_of(class, v).len(),
    ensures
        exists|j: int| 0 <= j < v.len() && #[trigger] v[j] == methods_of(class, v)[i].1,
    decreases v.len(),
{
    if v.len() > 0 {
        let front = v.drop_last();
        assert(v[v.len() - 1] == v.last());
        if i < methods_of(class, front).len() {
            lemma_method_of_source(class, front, i);
            let j = choose|j: int|
                0 <= j < front.len() && #[trigger] front[j] == methods_of(class, front)[i].1;
            assert(v[j] == front[j]);
        }
    }
}

/// A method that is inlined elsewhere is one of a class.
pub proof fn lemma_method_candidate_source(v: Seq<ClassView>, i: int)
    requires
        0 <= i < method_candidates(v).len(),
    ensures
        exists|k: int, j: int|
            0 <= k < v.len() && 0 <= j < v[k].methods.len() && #[trigger] v[k].methods[j]
                == method_candidates(v)[i].1,
    decreases v.len(),
{
    if v.len() > 0 {
        let front = v.drop_last();
        let class = v.last();
        let a = method_candidates(front);
        assert(v[v.len() - 1] == class);
        if i < a.len() {
            lemma_method_candidate_source(front, i);
            let (k, j) = choose|k: int, j: int|
                0 <= k < front.len() && 0 <= j < front[k].methods.len()
                    && #[trigger] front[k].methods[j] == a[i].1;
            assert(v[k].methods[j] == front[k].methods[j]);
        } else {
            lemma_method_of_source(class.name, class.methods, i - a.len());
            let j = choose|j: int|
                0 <= j < class.methods.len() && #[trigger] class.methods[j] == methods_of(
                    class.name,
                    class.methods,
                )[i - a.len()].1;
            assert(v[v.len() - 1].methods[j] == class.methods[j]);
        }
    }
}

// ---------------------------------------------------------------------------
// What stays
// ---------------------------------------------------------------------------

/// Whether the functions are the same but for their bodies.
pub open spec fn same_but_bodies(v: Seq<FunctionView>, w: Seq<FunctionView>) -> bool {
    &&& v.len() == w.len()
    &&& forall|i: int| 0 <= i < v.len() ==> #[trigger] w[i] == with_body(v[i], w[i].body)
}

proof fn lemma_functions_shape(
    v: Seq<FunctionView>,
    k: nat,
    c: CandidatesView,
    n: nat,
    depth: nat,
)
    requires
        k <= v.len(),
    ensures
        inline_in_functions(v, k, c, n, depth) matches Some((w, _)) ==> {
            &&& same_but_bodies(v.take(k as int), w)
            &&& forall|i: int|
                0 <= i < k && c.funcs.contains_key(v[i].id) ==> #[trigger] w[i] == v[i]
        },
    decreases k,
{
    if k > 0 {
        lemma_functions_shape(v, (k - 1) as nat, c, n, depth);
    }
}

proof fn lemma_methods_shape(
    class: Seq<char>,
    v: Seq<FunctionView>,
    k: nat,
    c: CandidatesView,
    n: nat,
    depth: nat,
)
    requires
        k <= v.len(),
    ensures
        inline_in_methods(class, v, k, c, n, depth) matches Some((w, _)) ==> {
            &&& same_but_bodies(v.take(k as int), w)
            &&& forall|i: int|
                0 <= i < k && find_method(c.methods, class, v[i].name) is Some
                    ==> #[trigger] w[i] == v[i]
        },
    decreases k,
{
    if k > 0 {
        lemma_methods_shape(class, v, (k - 1) as nat, c, n, depth);
    }
}

/// Whether the class differs in the bodies of its methods only, and not in those of
/// the candidates.
pub open spec fn same_class(a: ClassView, b: ClassView, c: CandidatesView) -> bool {
    &&& b == (ClassView { methods: b.methods, ..a })
    &&& same_but_bodies(a.methods, b.methods)
    &&& forall|i: int|
        0 <= i < a.methods.len() && find_method(c.methods, a.name, a.methods[i].name) is Some
            ==> #[trigger] b.methods[i] == a.methods[i]
}

proof fn lemma_classes_shape(v: Seq<ClassView>, k: nat, c: CandidatesView, n: nat, depth: nat)
    requires
        k <= v.len(),
    ensures
        inline_in_classes(v, k, c, n, depth) matches Some((w, _)) ==> {
            &&& w.len() == k
            &&& forall|i: int| 0 <= i < k ==> same_class(v[i], #[trigger] w[i], c)
        },
    decreases k,
{
    if k > 0 {
        lemma_classes_shape(v, (k - 1) as nat, c, n, depth);
        let class = v[k - 1];
        match inline_in_classes(v, (k - 1) as nat, c, n, depth) {
            Some((_, n1)) => {
                lemma_methods_shape(class.name, class.methods, class.methods.len(), c, n1, depth);
                assert(class.methods.take(class.methods.len() as int) =~= class.methods);
            },
            None => {},
        }
    }
}

/// Inlining changes the bodies of functions and methods, and the init statements.
/// Everything else stays, after multiplications were rewritten; so do the
/// functions and methods that are inlined elsewhere.
pub proof fn law_only_bodies_change(m: ModuleView, depth: nat)
    requires
        inline_module(m, depth) is Some,
    ensures
        ({
            let m1 = imul_in_module(m, imul_ids(m.functions));
            let out = inline_module(m, depth)->0;
            &&& out == (ModuleView {
                init: out.init,
                functions: out.functions,
                classes: out.classes,
                ..m
            })
            &&& same_but_bodies(m.functions, out.functions)
            &&& forall|i: int|
                0 <= i < m.functions.len() && candidates_of(m).funcs.contains_key(
                    m.functions[i].id,
                ) ==> #[trigger] out.functions[i] == m1.functions[i]
            &&& m.classes.len() == out.classes.len()
            &&& forall|i: int|
                0 <= i < m.classes.len() ==> same_class(
                    m1.classes[i],
                    #[trigger] out.classes[i],
                    candidates_of(m),
                )
        }),
{
    let m1 = imul_in_module(m, imul_ids(m.functions));
    let c = candidates_of(m);
    let m2 = inline_init(m1, c, depth)->0;
    let n = first_free(m1, m2);
    lemma_functions_shape(m2.functions, m2.functions.len(), c, n, depth);
    let (w, n1) = inline_in_functions(m2.functions, m2.functions.len(), c, n, depth)->0;
    assert(m2.functions.take(m2.functions.len() as int) =~= m2.functions);
    assert forall|i: int| 0 <= i < m.functions.len() implies #[trigger] w[i] == with_body(
        m.functions[i],
        w[i].body,
    ) by {
        assert(w[i] == with_body(m1.functions[i], w[i].body));
    }
    lemma_classes_shape(m2.classes, m2.classes.len(), c, n1, depth);
}

} // verus!

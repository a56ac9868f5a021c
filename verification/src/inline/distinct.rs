//! No two variables that the pass adds share an id.

use crate::hir::{FuncId, LocalId};
use crate::inline::candidate::{bound_by, bound_by_cases, bound_ids};
use crate::inline::expand::CandidatesView;
use crate::inline::hygiene::lemma_imul_max;
use crate::inline::laws::{lemma_func_candidate_source, lemma_method_candidate_source};
use crate::inline::lets::{
    below, binds_once, candidates_bind_once, lemma_below_tidy, lemma_bound_kept, lemma_stmts_lets,
    lemma_tidy_concat, tidy,
};
use crate::inline::module_ids::{
    class_names, function_names, lemma_module_max_exists, module_max, module_names,
};
use crate::inline::pass::{
    candidates_of, first_free, imul_ids, imul_in, imul_in_module, inline_in, inline_in_classes,
    inline_in_functions, inline_in_methods, inline_init, inline_module, param_types, pure_only,
};
use crate::inline::scan::{
    cases_have, lemma_cases_lack, lemma_stmt_has, lemma_stmts_lack, opt_expr_has, stmt_has, stmts_have,
    NodeTest,
};
use crate::model::{CaseView, ClassView, FunctionView, ModuleView, StmtView};
use crate::rewrite::Rewrite;
use vstd::prelude::*;

verus! {

// ---------------------------------------------------------------------------
// What is bound is named
// ---------------------------------------------------------------------------

spec fn avoids(ids: Seq<LocalId>, x: LocalId) -> bool {
    forall|i: int| 0 <= i < ids.len() ==> #[trigger] ids[i] != x
}

proof fn lemma_avoids_concat(a: Seq<LocalId>, b: Seq<LocalId>, x: LocalId)
    requires
        avoids(a, x),
        avoids(b, x),
    ensures
        avoids(a + b, x),
{
    assert forall|i: int| 0 <= i < (a + b).len() implies #[trigger] (a + b)[i] != x by {
        if i < a.len() {
            assert((a + b)[i] == a[i]);
        } else {
            assert((a + b)[i] == b[i - a.len()]);
        }
    }
}

/// Statements bind no id that they do not name.
proof fn lemma_bound_named(v: Seq<StmtView>, x: LocalId)
    requires
        !stmts_have(v, NodeTest::Names(x)),
    ensures
        avoids(bound_ids(v), x),
    decreases v, v.len(),
{
    let t = NodeTest::Names(x);
    if v.len() > 0 {
        let front = v.drop_last();
        lemma_stmts_lack(v, t);
        lemma_stmts_lack(front, t);
        assert forall|i: int| 0 <= i < front.len() implies !stmt_has(#[trigger] front[i], t) by {
            assert(front[i] == v[i]);
        }
        lemma_bound_named(front, x);
        assert(v.last() == v[v.len() - 1]);
        lemma_bound_by_named(v[v.len() - 1], x);
        lemma_avoids_concat(bound_ids(front), bound_by(v.last()), x);
    }
}

proof fn lemma_bound_cases_named(v: Seq<CaseView>, x: LocalId)
    requires
        !cases_have(v, NodeTest::Names(x)),
    ensures
        avoids(bound_by_cases(v), x),
    decreases v, v.len(),
{
    let t = NodeTest::Names(x);
    if v.len() > 0 {
        let front = v.drop_last();
        lemma_cases_lack(v, t);
        lemma_cases_lack(front, t);
        assert forall|i: int| 0 <= i < front.len() implies !opt_expr_has(
            (#[trigger] front[i]).test,
            t,
        ) && !stmts_have(front[i].body, t) by {
            assert(front[i] == v[i]);
        }
        lemma_bound_cases_named(front, x);
        assert(v.last() == v[v.len() - 1]);
        lemma_bound_named(v[v.len() - 1].body, x);
        lemma_avoids_concat(bound_by_cases(front), bound_ids(v.last().body), x);
    }
}

proof fn lemma_bound_by_named(s: StmtView, x: LocalId)
    requires
        !stmt_has(s, NodeTest::Names(x)),
    ensures
        avoids(bound_by(s), x),
    decreases s, 0nat,
{
    let none = Seq::<LocalId>::empty();
    lemma_stmt_has(s, NodeTest::Names(x));
    match s {
        StmtView::If { then_branch, else_branch, .. } => {
            lemma_bound_named(then_branch, x);
            let rest = match else_branch {
                Some(b) => {
                    lemma_bound_named(b, x);
                    bound_ids(b)
                },
                None => none,
            };
            lemma_avoids_concat(bound_ids(then_branch), rest, x);
        },
        StmtView::While { body, .. } => lemma_bound_named(body, x),
        StmtView::DoWhile { body, .. } => lemma_bound_named(body, x),
        StmtView::For { init, body, .. } => {
            lemma_bound_named(body, x);
            let start = match init {
                Some(i) => {
                    lemma_bound_by_named(*i, x);
                    bound_by(*i)
                },
                None => none,
            };
            lemma_avoids_concat(start, bound_ids(body), x);
        },
        StmtView::Labeled { body, .. } => lemma_bound_by_named(*body, x),
        StmtView::Try { body, catch, finally } => {
            lemma_bound_named(body, x);
            let caught = match catch {
                Some(c) => {
                    lemma_bound_named(c.body, x);
                    let param = match c.param {
                        Some(p) => seq![p.0],
                        None => none,
                    };
                    lemma_avoids_concat(param, bound_ids(c.body), x);
                    param + bound_ids(c.body)
                },
                None => none,
            };
            let last = match finally {
                Some(b) => {
                    lemma_bound_named(b, x);
                    bound_ids(b)
                },
                None => none,
            };
            lemma_avoids_concat(bound_ids(body), caught, x);
            lemma_avoids_concat(bound_ids(body) + caught, last, x);
        },
        StmtView::Switch { cases, .. } => lemma_bound_cases_named(cases, x),
        _ => {},
    }
}

/// Statements that name only old ids bind only old ids.
proof fn lemma_body_below(v: Seq<StmtView>, lo: nat)
    requires
        forall|x: LocalId| lo <= x ==> !#[trigger] stmts_have(v, NodeTest::Names(x)),
    ensures
        below(bound_ids(v), lo),
{
    let ids = bound_ids(v);
    assert forall|i: int| 0 <= i < ids.len() implies (#[trigger] ids[i]) < lo by {
        if lo <= ids[i] {
            assert(!stmts_have(v, NodeTest::Names(ids[i])));
            lemma_bound_named(v, ids[i]);
        }
    }
}

// ---------------------------------------------------------------------------
// Functions, methods and the module
// ---------------------------------------------------------------------------

/// The local ids that the bodies of the functions bind, in source order. Closures
/// bind their own.
pub open spec fn functions_bound(v: Seq<FunctionView>) -> Seq<LocalId>
    decreases v.len(),
{
    if v.len() == 0 {
        Seq::empty()
    } else {
        functions_bound(v.drop_last()) + bound_ids(v.last().body)
    }
}

/// The local ids that the methods of the classes bind.
pub open spec fn classes_bound(v: Seq<ClassView>) -> Seq<LocalId>
    decreases v.len(),
{
    if v.len() == 0 {
        Seq::empty()
    } else {
        classes_bound(v.drop_last()) + functions_bound(v.last().methods)
    }
}

/// The local ids that the init statements, the functions and the methods of the
/// module bind: wherever calls are inlined.
pub open spec fn module_bound(m: ModuleView) -> Seq<LocalId> {
    bound_ids(m.init) + functions_bound(m.functions) + classes_bound(m.classes)
}

/// Whether each function and each method binds each of its parameters and variables
/// once.
pub open spec fn module_binds_once(m: ModuleView) -> bool {
    &&& forall|i: int| 0 <= i < m.functions.len() ==> binds_once(#[trigger] m.functions[i])
    &&& forall|i: int, j: int|
        0 <= i < m.classes.len() && 0 <= j < m.classes[i].methods.len() ==> binds_once(
            #[trigger] m.classes[i].methods[j],
        )
}

/// Whether the bodies of the functions bind only ids below the bound.
spec fn bodies_below(v: Seq<FunctionView>, lo: nat) -> bool {
    forall|i: int| 0 <= i < v.len() ==> below(bound_ids((#[trigger] v[i]).body), lo)
}

proof fn lemma_functions_bound_push(v: Seq<FunctionView>, f: FunctionView)
    ensures
        functions_bound(v.push(f)) == functions_bound(v) + bound_ids(f.body),
{
    assert(v.push(f).drop_last() =~= v);
}

/// One function more, whose body adds what lies in the range that follows.
proof fn lemma_push_tidy(
    v: Seq<FunctionView>,
    f: FunctionView,
    lo: nat,
    n: nat,
    k: nat,
    next: nat,
)
    requires
        tidy(functions_bound(v), lo, n, k),
        tidy(bound_ids(f.body), lo, k, next),
        n <= k <= next,
    ensures
        tidy(functions_bound(v.push(f)), lo, n, next),
{
    lemma_functions_bound_push(v, f);
    lemma_tidy_concat(functions_bound(v), bound_ids(f.body), lo, n, k, next);
}

proof fn lemma_functions_tidy(
    v: Seq<FunctionView>,
    k: nat,
    c: CandidatesView,
    n: nat,
    depth: nat,
    lo: nat,
)
    requires
        candidates_bind_once(c),
        bodies_below(v, lo),
        lo <= n,
    ensures
        inline_in_functions(v, k, c, n, depth) matches Some((out, next)) ==> n <= next && tidy(
            functions_bound(out),
            lo,
            n,
            next,
        ),
    decreases k,
{
    if 0 < k <= v.len() {
        lemma_functions_tidy(v, (k - 1) as nat, c, n, depth, lo);
        let f = v[k - 1];
        assert(below(bound_ids(v[k - 1].body), lo));
        match inline_in_functions(v, (k - 1) as nat, c, n, depth) {
            Some((front, n1)) => {
                lemma_below_tidy(bound_ids(f.body), lo, n1, n1);
                lemma_push_tidy(front, f, lo, n, n1, n1);
                lemma_stmts_lets(f.body, c, param_types(f.params), n1, depth, lo);
                match inline_in(f, c, n1, depth) {
                    Some((g, n2)) => lemma_push_tidy(front, g, lo, n, n1, n2),
                    None => {},
                }
            },
            None => {},
        }
    }
}

proof fn lemma_methods_tidy(
    class: Seq<char>,
    v: Seq<FunctionView>,
    k: nat,
    c: CandidatesView,
    n: nat,
    depth: nat,
    lo: nat,
)
    requires
        candidates_bind_once(c),
        bodies_below(v, lo),
        lo <= n,
    ensures
        inline_in_methods(class, v, k, c, n, depth) matches Some((out, next)) ==> n <= next && tidy(
            functions_bound(out),
            lo,
            n,
            next,
        ),
    decreases k,
{
    if 0 < k <= v.len() {
        lemma_methods_tidy(class, v, (k - 1) as nat, c, n, depth, lo);
        let f = v[k - 1];
        assert(below(bound_ids(v[k - 1].body), lo));
        match inline_in_methods(class, v, (k - 1) as nat, c, n, depth) {
            Some((front, n1)) => {
                lemma_below_tidy(bound_ids(f.body), lo, n1, n1);
                lemma_push_tidy(front, f, lo, n, n1, n1);
                lemma_stmts_lets(f.body, c, param_types(f.params), n1, depth, lo);
                match inline_in(f, c, n1, depth) {
                    Some((g, n2)) => lemma_push_tidy(front, g, lo, n, n1, n2),
                    None => {},
                }
            },
            None => {},
        }
    }
}

proof fn lemma_classes_tidy(
    v: Seq<ClassView>,
    k: nat,
    c: CandidatesView,
    n: nat,
    depth: nat,
    lo: nat,
)
    requires
        candidates_bind_once(c),
        forall|i: int| 0 <= i < v.len() ==> bodies_below((#[trigger] v[i]).methods, lo),
        lo <= n,
    ensures
        inline_in_classes(v, k, c, n, depth) matches Some((out, next)) ==> n <= next && tidy(
            classes_bound(out),
            lo,
            n,
            next,
        ),
    decreases k,
{
    if 0 < k <= v.len() {
        lemma_classes_tidy(v, (k - 1) as nat, c, n, depth, lo);
        let class = v[k - 1];
        match inline_in_classes(v, (k - 1) as nat, c, n, depth) {
            Some((front, n1)) => {
                let count = class.methods.len();
                lemma_methods_tidy(class.name, class.methods, count, c, n1, depth, lo);
                match inline_in_methods(class.name, class.methods, count, c, n1, depth) {
                    Some((methods, n2)) => {
                        let new = ClassView { methods, ..class };
                        assert(front.push(new).drop_last() =~= front);
                        lemma_tidy_concat(
                            classes_bound(front),
                            functions_bound(methods),
                            lo,
                            n,
                            n1,
                            n2,
                        );
                    },
                    None => {},
                }
            },
            None => {},
        }
    }
}

/// The candidates bind once where the functions and methods do.
proof fn lemma_candidates_bind_once(m: ModuleView)
    requires
        module_binds_once(m),
    ensures
        candidates_bind_once(candidates_of(m)),
{
    let ids = imul_ids(m.functions);
    let r = Rewrite::Imul(ids);
    let m1 = imul_in_module(m, ids);
    let c = candidates_of(m);
    assert forall|id: FuncId| c.funcs.contains_key(id) implies binds_once(
        #[trigger] c.funcs[id],
    ) by {
        lemma_func_candidate_source(m1.functions, id);
        let i = choose|i: int|
            0 <= i < m1.functions.len() && #[trigger] m1.functions[i] == c.funcs[id]
                && m1.functions[i].id == id;
        assert(binds_once(m.functions[i]));
        lemma_bound_kept(m.functions[i].body, r);
    }
    assert forall|i: int| 0 <= i < c.methods.len() implies binds_once(
        (#[trigger] c.methods[i]).1,
    ) by {
        lemma_method_candidate_source(m1.classes, i);
        let (k, j) = choose|k: int, j: int|
            0 <= k < m1.classes.len() && 0 <= j < m1.classes[k].methods.len()
                && #[trigger] m1.classes[k].methods[j] == c.methods[i].1;
        assert(binds_once(m.classes[k].methods[j]));
        assert(m1.classes[k].methods[j] == imul_in(m.classes[k].methods[j], ids));
        lemma_bound_kept(m.classes[k].methods[j].body, r);
    }
}

/// Whether the module names only ids below the bound.
spec fn names_below(m: ModuleView, lo: nat) -> bool {
    forall|x: LocalId| lo <= x ==> !#[trigger] module_names(m, x)
}

/// A module that names only old ids binds only old ids.
proof fn lemma_module_below(m: ModuleView, lo: nat)
    requires
        names_below(m, lo),
    ensures
        below(bound_ids(m.init), lo),
        bodies_below(m.functions, lo),
        forall|i: int|
            0 <= i < m.classes.len() ==> bodies_below((#[trigger] m.classes[i]).methods, lo),
{
    assert forall|x: LocalId| lo <= x implies !#[trigger] stmts_have(
        m.init,
        NodeTest::Names(x),
    ) by {
        assert(!module_names(m, x));
    }
    lemma_body_below(m.init, lo);
    assert forall|i: int| 0 <= i < m.functions.len() implies below(
        bound_ids((#[trigger] m.functions[i]).body),
        lo,
    ) by {
        assert forall|x: LocalId| lo <= x implies !#[trigger] stmts_have(
            m.functions[i].body,
            NodeTest::Names(x),
        ) by {
            assert(!module_names(m, x));
            assert(!function_names(m.functions[i], x));
        }
        lemma_body_below(m.functions[i].body, lo);
    }
    assert forall|i: int| 0 <= i < m.classes.len() implies bodies_below(
        (#[trigger] m.classes[i]).methods,
        lo,
    ) by {
        let methods = m.classes[i].methods;
        assert forall|j: int| 0 <= j < methods.len() implies below(
            bound_ids((#[trigger] methods[j]).body),
            lo,
        ) by {
            assert forall|x: LocalId| lo <= x implies !#[trigger] stmts_have(
                methods[j].body,
                NodeTest::Names(x),
            ) by {
                assert(!module_names(m, x));
                assert(!class_names(m.classes[i], x));
                assert(!function_names(methods[j], x));
            }
            lemma_body_below(methods[j].body, lo);
        }
    }
}

/// The init statements add ids that the functions do not get: they start above them.
proof fn lemma_init_tidy(m: ModuleView, c: CandidatesView, depth: nat)
    requires
        candidates_bind_once(c),
        inline_init(m, c, depth) is Some,
    ensures
        ({
            let m2 = inline_init(m, c, depth)->0;
            let lo = module_max(m) as nat + 1;
            tidy(bound_ids(m2.init), lo, lo, first_free(m, m2))
        }),
{
    let lo = module_max(m) as nat + 1;
    let init_c = CandidatesView { funcs: pure_only(c.funcs), ..c };
    let m2 = inline_init(m, c, depth)->0;
    let n = first_free(m, m2);
    assert(candidates_bind_once(init_c)) by {
        assert forall|id: FuncId| init_c.funcs.contains_key(id) implies binds_once(
            #[trigger] init_c.funcs[id],
        ) by {
            assert(binds_once(c.funcs[id]));
        }
    }
    lemma_module_max_exists(m);
    assert(names_below(m, lo));
    lemma_module_below(m, lo);
    lemma_stmts_lets(m.init, init_c, Map::empty(), lo, depth, lo);
    lemma_module_max_exists(m2);
    assert(names_below(m2, n));
    lemma_module_below(m2, n);
}

/// No two variables that the pass adds share an id: of what the init statements, the
/// functions and the methods of the result bind, closures aside, an id beyond all
/// that the module named before stands in one place only. The module's functions and
/// methods each bind their own parameters and variables once.
pub proof fn law_new_variables_are_distinct(m: ModuleView, depth: nat)
    requires
        inline_module(m, depth) is Some,
        module_binds_once(m),
    ensures
        ({
            let ids = module_bound(inline_module(m, depth)->0);
            forall|i: int, j: int|
                0 <= i < j < ids.len() && ids[i] > module_max(m) ==> #[trigger] ids[i]
                    != #[trigger] ids[j]
        }),
{
    let ids = imul_ids(m.functions);
    let m1 = imul_in_module(m, ids);
    let c = candidates_of(m);
    let lo = module_max(m) as nat + 1;
    lemma_imul_max(m, ids);
    lemma_candidates_bind_once(m);
    lemma_init_tidy(m1, c, depth);
    let m2 = inline_init(m1, c, depth)->0;
    let n = first_free(m1, m2);
    lemma_module_max_exists(m1);
    assert(names_below(m1, lo));
    lemma_module_below(m1, lo);
    lemma_functions_tidy(m2.functions, m2.functions.len(), c, n, depth, lo);
    let (functions, n1) = inline_in_functions(m2.functions, m2.functions.len(), c, n, depth)->0;
    lemma_classes_tidy(m2.classes, m2.classes.len(), c, n1, depth, lo);
    let (classes, n2) = inline_in_classes(m2.classes, m2.classes.len(), c, n1, depth)->0;
    lemma_tidy_concat(bound_ids(m2.init), functions_bound(functions), lo, lo, n, n1);
    lemma_tidy_concat(
        bound_ids(m2.init) + functions_bound(functions),
        classes_bound(classes),
        lo,
        lo,
        n1,
        n2,
    );
}

} // verus!

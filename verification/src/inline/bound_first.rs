//! Whatever the pass adds is bound before it is used.

use crate::hir::{FuncId, LocalId};
use crate::inline::expand::CandidatesView;
use crate::inline::fresh::{candidates_free, stmts_free};
use crate::inline::hygiene::{lemma_candidates_free, lemma_imul_max, lemma_imul_module};
use crate::inline::module_ids::{
    class_names, function_names, lemma_module_max_exists, module_max, module_names,
};
use crate::inline::pass::{
    candidates_of, first_free, imul_ids, imul_in_module, inline_in_classes, inline_in_functions,
    inline_in_methods, inline_init, inline_module, param_types, pure_only,
};
use crate::inline::reads::{from_id, lemma_unwatched_orderly, orderly, stmts_unwatched};
use crate::inline::spliced::{candidates_suit, lemma_stmts_orderly, lets_first, suits};
use crate::model::{ClassView, FunctionView, ModuleView, StmtView};
use vstd::prelude::*;

verus! {

/// Whether the statements use no id from `lo` on before a let that binds it.
pub open spec fn bound_first(v: Seq<StmtView>, lo: nat) -> bool {
    orderly(v, Set::empty(), from_id(lo))
}

/// Whether no function or method that is inlined elsewhere uses one of its variables
/// before the let that binds it.
pub open spec fn candidates_let_first(c: CandidatesView) -> bool {
    &&& forall|id: FuncId| c.funcs.contains_key(id) ==> lets_first(#[trigger] c.funcs[id])
    &&& forall|i: int| 0 <= i < c.methods.len() ==> lets_first((#[trigger] c.methods[i]).1)
}

/// Whether no body names an id from `lo` on.
spec fn all_unwatched(v: Seq<FunctionView>, lo: nat) -> bool {
    forall|i: int| 0 <= i < v.len() ==> stmts_unwatched((#[trigger] v[i]).body, from_id(lo))
}

pub open spec fn all_bound_first(v: Seq<FunctionView>, lo: nat) -> bool {
    forall|i: int| 0 <= i < v.len() ==> bound_first((#[trigger] v[i]).body, lo)
}

proof fn lemma_push_bound_first(v: Seq<FunctionView>, f: FunctionView, lo: nat)
    requires
        all_bound_first(v, lo),
        bound_first(f.body, lo),
    ensures
        all_bound_first(v.push(f), lo),
{
    let all = v.push(f);
    assert forall|i: int| 0 <= i < all.len() implies bound_first((#[trigger] all[i]).body, lo) by {
        if i < v.len() {
            assert(all[i] == v[i]);
        }
    }
}

proof fn lemma_functions_bound_first(
    v: Seq<FunctionView>,
    k: nat,
    c: CandidatesView,
    n: nat,
    depth: nat,
    lo: nat,
)
    requires
        candidates_suit(c, from_id(lo)),
        all_unwatched(v, lo),
    ensures
        inline_in_functions(v, k, c, n, depth) matches Some((out, _)) ==> all_bound_first(out, lo),
    decreases k,
{
    if 0 < k <= v.len() {
        lemma_functions_bound_first(v, (k - 1) as nat, c, n, depth, lo);
        let f = v[k - 1];
        let watched = from_id(lo);
        assert(stmts_unwatched(v[k - 1].body, watched));
        match inline_in_functions(v, (k - 1) as nat, c, n, depth) {
            Some((front, n1)) => {
                lemma_unwatched_orderly(f.body, Set::empty(), watched);
                lemma_stmts_orderly(
                    f.body,
                    c,
                    param_types(f.params),
                    n1,
                    depth,
                    Set::empty(),
                    watched,
                );
                match inline_in_functions(v, k, c, n, depth) {
                    Some((out, _)) => lemma_push_bound_first(front, out.last(), lo),
                    None => {},
                }
            },
            None => {},
        }
    }
}

proof fn lemma_methods_bound_first(
    class: Seq<char>,
    v: Seq<FunctionView>,
    k: nat,
    c: CandidatesView,
    n: nat,
    depth: nat,
    lo: nat,
)
    requires
        candidates_suit(c, from_id(lo)),
        all_unwatched(v, lo),
    ensures
        inline_in_methods(class, v, k, c, n, depth) matches Some((out, _)) ==> all_bound_first(
            out,
            lo,
        ),
    decreases k,
{
    if 0 < k <= v.len() {
        lemma_methods_bound_first(class, v, (k - 1) as nat, c, n, depth, lo);
        let f = v[k - 1];
        let watched = from_id(lo);
        assert(stmts_unwatched(v[k - 1].body, watched));
        match inline_in_methods(class, v, (k - 1) as nat, c, n, depth) {
            Some((front, n1)) => {
                lemma_unwatched_orderly(f.body, Set::empty(), watched);
                lemma_stmts_orderly(
                    f.body,
                    c,
                    param_types(f.params),
                    n1,
                    depth,
                    Set::empty(),
                    watched,
                );
                match inline_in_methods(class, v, k, c, n, depth) {
                    Some((out, _)) => lemma_push_bound_first(front, out.last(), lo),
                    None => {},
                }
            },
            None => {},
        }
    }
}

proof fn lemma_classes_bound_first(
    v: Seq<ClassView>,
    k: nat,
    c: CandidatesView,
    n: nat,
    depth: nat,
    lo: nat,
)
    requires
        candidates_suit(c, from_id(lo)),
        forall|i: int| 0 <= i < v.len() ==> all_unwatched((#[trigger] v[i]).methods, lo),
    ensures
        inline_in_classes(v, k, c, n, depth) matches Some((out, _)) ==> forall|i: int|
            0 <= i < out.len() ==> all_bound_first((#[trigger] out[i]).methods, lo),
    decreases k,
{
    if 0 < k <= v.len() {
        lemma_classes_bound_first(v, (k - 1) as nat, c, n, depth, lo);
        let class = v[k - 1];
        match inline_in_classes(v, (k - 1) as nat, c, n, depth) {
            Some((front, n1)) => {
                let count = class.methods.len();
                assert(all_unwatched(v[k - 1].methods, lo));
                lemma_methods_bound_first(class.name, class.methods, count, c, n1, depth, lo);
            },
            None => {},
        }
    }
}

/// A variable that the pass adds is bound before it is used: in the init statements and
/// in every function and method of the result, whatever uses an id beyond all that the
/// module named before stands behind a let of that id, in the same list of statements
/// or in one around it. The functions and methods that are inlined use none of their
/// own variables before its let.
pub proof fn law_new_variables_are_bound_first(m: ModuleView, depth: nat)
    requires
        inline_module(m, depth) is Some,
        candidates_let_first(candidates_of(m)),
    ensures
        ({
            let out = inline_module(m, depth)->0;
            let lo = module_max(m) as nat + 1;
            &&& bound_first(out.init, lo)
            &&& all_bound_first(out.functions, lo)
            &&& forall|i: int|
                0 <= i < out.classes.len() ==> all_bound_first(
                    (#[trigger] out.classes[i]).methods,
                    lo,
                )
        }),
{
    let ids = imul_ids(m.functions);
    let m1 = imul_in_module(m, ids);
    let c = candidates_of(m);
    let lo = module_max(m) as nat + 1;
    let watched = from_id(lo);
    lemma_module_max_exists(m);
    lemma_imul_max(m, ids);
    assert forall|x: LocalId| lo <= x implies !#[trigger] module_names(m1, x)
        && candidates_free(c, x) by {
        assert(!module_names(m, x));
        lemma_imul_module(m, ids, x);
        lemma_candidates_free(m, x);
    }
    assert(candidates_suit(c, watched)) by {
        assert forall|id: FuncId| c.funcs.contains_key(id) implies suits(
            #[trigger] c.funcs[id],
            watched,
        ) by {
            assert(lets_first(c.funcs[id]));
            assert forall|x: LocalId| #[trigger] watched.contains(x) implies
                stmts_free(c.funcs[id].body, x) by {
                assert(!module_names(m1, x) && candidates_free(c, x));
            }
        }
        assert forall|i: int| 0 <= i < c.methods.len() implies suits(
            (#[trigger] c.methods[i]).1,
            watched,
        ) by {
            assert(lets_first(c.methods[i].1));
            assert forall|x: LocalId| #[trigger] watched.contains(x) implies
                stmts_free(c.methods[i].1.body, x) by {
                assert(!module_names(m1, x) && candidates_free(c, x));
            }
        }
    }
    let init_c = CandidatesView { funcs: pure_only(c.funcs), ..c };
    assert(candidates_suit(init_c, watched)) by {
        assert forall|id: FuncId| init_c.funcs.contains_key(id) implies suits(
            #[trigger] init_c.funcs[id],
            watched,
        ) by {
            assert(suits(c.funcs[id], watched));
        }
    }
    assert forall|x: LocalId| #[trigger] watched.contains(x) implies
        stmts_free(m1.init, x) by {
        assert(!module_names(m1, x));
    }
    lemma_stmts_orderly(m1.init, init_c, Map::empty(), lo, depth, Set::empty(), watched);
    let m2 = inline_init(m1, c, depth)->0;
    let n = first_free(m1, m2);
    assert forall|i: int| 0 <= i < m1.functions.len() implies stmts_unwatched(
        (#[trigger] m1.functions[i]).body,
        watched,
    ) by {
        assert forall|x: LocalId| #[trigger] watched.contains(x) implies
            stmts_free(m1.functions[i].body, x) by {
            assert(!module_names(m1, x));
            assert(!function_names(m1.functions[i], x));
        }
    }
    assert forall|i: int| 0 <= i < m1.classes.len() implies all_unwatched(
        (#[trigger] m1.classes[i]).methods,
        lo,
    ) by {
        let methods = m1.classes[i].methods;
        assert forall|j: int| 0 <= j < methods.len() implies stmts_unwatched(
            (#[trigger] methods[j]).body,
            watched,
        ) by {
            assert forall|x: LocalId| #[trigger] watched.contains(x) implies
                stmts_free(methods[j].body, x) by {
                assert(!module_names(m1, x));
                assert(!class_names(m1.classes[i], x));
                assert(!function_names(methods[j], x));
            }
        }
    }
    lemma_functions_bound_first(m2.functions, m2.functions.len(), c, n, depth, lo);
    let (functions, n1) = inline_in_functions(m2.functions, m2.functions.len(), c, n, depth)->0;
    lemma_classes_bound_first(m2.classes, m2.classes.len(), c, n1, depth, lo);
}

} // verus!

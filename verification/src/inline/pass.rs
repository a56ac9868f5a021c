//! The inlining pass over a module.

use crate::copy::{
    copy_accessors, copy_class_fields, copy_functions, copy_ids, copy_opt_function, copy_opt_str,
    copy_params, copy_stmts,
};
use crate::hir::{Class, FuncId, Function, LocalId, Module, Param, Stmt, Type};
use crate::inline::calls::{inline_calls_in_stmts, inline_stmts};
use crate::inline::candidate::{inlinable, is_inlinable, is_pure_function, pure};
use crate::inline::expand::{
    find_method, funcs_map, lookup_method, methods_view, types_map, Candidates, CandidatesView,
    MethodCandidate,
};
use crate::inline::imul::{detect_math_imul_polyfill, imul_polyfill, rewrite_imul_calls_in_stmts};
use crate::inline::module_ids::{find_max_local_id_in_module, module_max};
use crate::model::{
    accessors_view, classes_view, functions_view, params_view, stmts_view, ClassView,
    FunctionView, ModuleView, ParamView, StmtView, TypeView,
};
use crate::rewrite::{rewrite_stmts, Rewrite};
use std::collections::{HashMap, HashSet};
use vstd::prelude::*;

verus! {

broadcast use vstd::std_specs::hash::group_hash_axioms;

// ---------------------------------------------------------------------------
// What the pass works with
// ---------------------------------------------------------------------------

/// The ids of the functions that spell out an integer multiplication.
pub open spec fn imul_ids(functions: Seq<FunctionView>) -> Set<FuncId> {
    Set::new(
        |id: FuncId|
            exists|i: int|
                0 <= i < functions.len() && (#[trigger] functions[i]).id == id && imul_polyfill(
                    functions[i],
                ),
    )
}

/// The functions that can be inlined, by id; of several with one id, the last.
pub open spec fn func_candidates(functions: Seq<FunctionView>) -> Map<FuncId, FunctionView>
    decreases functions.len(),
{
    if functions.len() == 0 {
        Map::empty()
    } else {
        let front = func_candidates(functions.drop_last());
        let f = functions.last();
        if inlinable(f) {
            front.insert(f.id, f)
        } else {
            front
        }
    }
}

/// Those of the functions that are pure.
pub open spec fn pure_only(m: Map<FuncId, FunctionView>) -> Map<FuncId, FunctionView> {
    Map::new(|id: FuncId| m.contains_key(id) && pure(m[id]), |id: FuncId| m[id])
}

/// The methods of a class that can be inlined, in order.
pub open spec fn methods_of(class: Seq<char>, methods: Seq<FunctionView>) -> Seq<
    (Seq<char>, FunctionView),
>
    decreases methods.len(),
{
    if methods.len() == 0 {
        Seq::empty()
    } else {
        let front = methods_of(class, methods.drop_last());
        if inlinable(methods.last()) {
            front.push((class, methods.last()))
        } else {
            front
        }
    }
}

/// The methods that can be inlined. Classes that extend a built-in one have none.
pub open spec fn method_candidates(classes: Seq<ClassView>) -> Seq<(Seq<char>, FunctionView)>
    decreases classes.len(),
{
    if classes.len() == 0 {
        Seq::empty()
    } else {
        let front = method_candidates(classes.drop_last());
        let c = classes.last();
        if c.native_extends is Some {
            front
        } else {
            front + methods_of(c.name, c.methods)
        }
    }
}

/// The classes of the parameters.
pub open spec fn param_types(params: Seq<ParamView>) -> Map<LocalId, Seq<char>>
    decreases params.len(),
{
    if params.len() == 0 {
        Map::empty()
    } else {
        let front = param_types(params.drop_last());
        match params.last().ty {
            TypeView::Named(class) => front.insert(params.last().id, class),
            _ => front,
        }
    }
}

// ---------------------------------------------------------------------------
// Multiplications
// ---------------------------------------------------------------------------

/// The function with another body.
pub open spec fn with_body(f: FunctionView, body: Seq<StmtView>) -> FunctionView {
    FunctionView { body, ..f }
}

/// The function with the calls of the multiplications rewritten.
pub open spec fn imul_in(f: FunctionView, ids: Set<FuncId>) -> FunctionView {
    with_body(f, rewrite_stmts(f.body, Rewrite::Imul(ids)))
}

/// The accessors with the calls in their bodies rewritten.
pub open spec fn imul_in_accessors(v: Seq<(Seq<char>, FunctionView)>, ids: Set<FuncId>) -> Seq<
    (Seq<char>, FunctionView),
> {
    v.map_values(|a: (Seq<char>, FunctionView)| (a.0, imul_in(a.1, ids)))
}

/// The class with the calls rewritten in all its bodies: those of the constructor,
/// of methods, static ones too, and of accessors.
pub open spec fn imul_in_class(c: ClassView, ids: Set<FuncId>) -> ClassView {
    ClassView {
        constructor: match c.constructor {
            Some(f) => Some(imul_in(f, ids)),
            None => None,
        },
        methods: c.methods.map_values(|f: FunctionView| imul_in(f, ids)),
        getters: imul_in_accessors(c.getters, ids),
        setters: imul_in_accessors(c.setters, ids),
        static_methods: c.static_methods.map_values(|f: FunctionView| imul_in(f, ids)),
        ..c
    }
}

/// The module with the calls of its multiplications rewritten, the bodies of the
/// multiplications themselves aside.
pub open spec fn imul_in_module(m: ModuleView, ids: Set<FuncId>) -> ModuleView {
    ModuleView {
        init: rewrite_stmts(m.init, Rewrite::Imul(ids)),
        functions: m.functions.map_values(
            |f: FunctionView| if ids.contains(f.id) { f } else { imul_in(f, ids) },
        ),
        classes: m.classes.map_values(|c: ClassView| imul_in_class(c, ids)),
        ..m
    }
}

// ---------------------------------------------------------------------------
// Inlining
// ---------------------------------------------------------------------------

/// The function with the calls in its body inlined, and the next free id.
pub open spec fn inline_in(f: FunctionView, c: CandidatesView, n: nat, depth: nat) -> Option<
    (FunctionView, nat),
> {
    match inline_stmts(f.body, c, param_types(f.params), n, depth) {
        Some(run) => Some((with_body(f, run.out), run.next)),
        None => None,
    }
}

/// The first `k` functions, with the calls inlined in those that are not
/// candidates themselves.
pub open spec fn inline_in_functions(
    v: Seq<FunctionView>,
    k: nat,
    c: CandidatesView,
    n: nat,
    depth: nat,
) -> Option<(Seq<FunctionView>, nat)>
    decreases k,
{
    if k == 0 || k > v.len() {
        Some((Seq::empty(), n))
    } else {
        match inline_in_functions(v, (k - 1) as nat, c, n, depth) {
            Some((front, n1)) => if c.funcs.contains_key(v[k - 1].id) {
                Some((front.push(v[k - 1]), n1))
            } else {
                match inline_in(v[k - 1], c, n1, depth) {
                    Some((f, n2)) => Some((front.push(f), n2)),
                    None => None,
                }
            },
            None => None,
        }
    }
}

/// The first `k` methods of a class, with the calls inlined in those that are not
/// candidates themselves.
pub open spec fn inline_in_methods(
    class: Seq<char>,
    v: Seq<FunctionView>,
    k: nat,
    c: CandidatesView,
    n: nat,
    depth: nat,
) -> Option<(Seq<FunctionView>, nat)>
    decreases k,
{
    if k == 0 || k > v.len() {
        Some((Seq::empty(), n))
    } else {
        match inline_in_methods(class, v, (k - 1) as nat, c, n, depth) {
            Some((front, n1)) => if find_method(c.methods, class, v[k - 1].name) is Some {
                Some((front.push(v[k - 1]), n1))
            } else {
                match inline_in(v[k - 1], c, n1, depth) {
                    Some((f, n2)) => Some((front.push(f), n2)),
                    None => None,
                }
            },
            None => None,
        }
    }
}

/// The first `k` classes, with the calls inlined in their methods.
pub open spec fn inline_in_classes(
    v: Seq<ClassView>,
    k: nat,
    c: CandidatesView,
    n: nat,
    depth: nat,
) -> Option<(Seq<ClassView>, nat)>
    decreases k,
{
    if k == 0 || k > v.len() {
        Some((Seq::empty(), n))
    } else {
        match inline_in_classes(v, (k - 1) as nat, c, n, depth) {
            Some((front, n1)) => {
                let class = v[k - 1];
                match inline_in_methods(class.name, class.methods, class.methods.len(), c, n1, depth) {
                    Some((methods, n2)) => Some((front.push(ClassView { methods, ..class }), n2)),
                    None => None,
                }
            },
            None => None,
        }
    }
}

/// The module with its init statements inlined: methods, and pure functions.
pub open spec fn inline_init(m: ModuleView, c: CandidatesView, depth: nat) -> Option<ModuleView> {
    if module_max(m) == u32::MAX {
        None
    } else {
        match inline_stmts(
            m.init,
            CandidatesView { funcs: pure_only(c.funcs), ..c },
            Map::empty(),
            module_max(m) as nat + 1,
            depth,
        ) {
            Some(run) => Some(ModuleView { init: run.out, ..m }),
            None => None,
        }
    }
}

/// The first id that the pass may take in functions, once init was done: above
/// all that the module names then, and above all that it named before.
pub open spec fn first_free(before: ModuleView, after: ModuleView) -> nat {
    if module_max(before) < module_max(after) {
        module_max(after) as nat + 1
    } else {
        module_max(before) as nat + 1
    }
}

/// The module with the calls inlined in functions and methods, and ids from `n` on
/// taken for it.
pub open spec fn inline_rest(m: ModuleView, c: CandidatesView, n: nat, depth: nat) -> Option<
    ModuleView,
> {
    match inline_in_functions(m.functions, m.functions.len(), c, n, depth) {
        Some((functions, n1)) => match inline_in_classes(
            m.classes,
            m.classes.len(),
            c,
            n1,
            depth,
        ) {
            Some((classes, _)) => Some(ModuleView { functions, classes, ..m }),
            None => None,
        },
        None => None,
    }
}

/// The candidates of a module: functions and methods with their multiplications
/// rewritten.
pub open spec fn candidates_of(m: ModuleView) -> CandidatesView {
    let m1 = imul_in_module(m, imul_ids(m.functions));
    CandidatesView {
        funcs: func_candidates(m1.functions),
        methods: method_candidates(m1.classes),
    }
}

/// The module after the pass. There is none where what calls turn into keeps
/// holding calls beyond `depth`, or where the ids run out.
pub open spec fn inline_module(m: ModuleView, depth: nat) -> Option<ModuleView> {
    let m1 = imul_in_module(m, imul_ids(m.functions));
    let c = candidates_of(m);
    match inline_init(m1, c, depth) {
        Some(m2) => {
            let n = first_free(m1, m2);
            if n > u32::MAX {
                None
            } else {
                inline_rest(m2, c, n, depth)
            }
        },
        None => None,
    }
}

// ---------------------------------------------------------------------------
// Execution
// ---------------------------------------------------------------------------

fn collect_imul_ids(v: &Vec<Function>) -> (r: HashSet<FuncId>)
    ensures
        r@ == imul_ids(functions_view(v@)),
{
    let ghost all = functions_view(v@);
    let mut ids: HashSet<FuncId> = HashSet::new();
    let mut i: usize = 0;
    while i < v.len()
        invariant
            i <= v@.len(),
            all == functions_view(v@),
            forall|id: FuncId| #[trigger]
                ids@.contains(id) <==> exists|j: int|
                    0 <= j < i && (#[trigger] all[j]).id == id && imul_polyfill(all[j]),
        decreases v@.len() - i,
    {
        assert(all[i as int] == v@[i as int].view());
        if detect_math_imul_polyfill(&v[i]) {
            ids.insert(v[i].id);
        }
        i += 1;
    }
    assert(ids@ =~= imul_ids(all));
    ids
}

proof fn lemma_funcs_map_insert(m: Map<FuncId, Function>, id: FuncId, f: Function)
    ensures
        funcs_map(m.insert(id, f)) == funcs_map(m).insert(id, f.view()),
{
    assert(funcs_map(m.insert(id, f)) =~= funcs_map(m).insert(id, f.view()));
}

/// The functions that can be inlined, and those of them that are pure.
fn collect_func_candidates(v: &Vec<Function>) -> (r: (
    HashMap<FuncId, Function>,
    HashMap<FuncId, Function>,
))
    ensures
        funcs_map(r.0@) == func_candidates(functions_view(v@)),
        funcs_map(r.1@) == pure_only(func_candidates(functions_view(v@))),
{
    let ghost all = functions_view(v@);
    let mut funcs: HashMap<FuncId, Function> = HashMap::new();
    let mut pures: HashMap<FuncId, Function> = HashMap::new();
    assert(funcs_map(funcs@) =~= Map::empty());
    assert(funcs_map(pures@) =~= pure_only(Map::empty()));
    let mut i: usize = 0;
    while i < v.len()
        invariant
            i <= v@.len(),
            all == functions_view(v@),
            funcs_map(funcs@) == func_candidates(all.take(i as int)),
            funcs_map(pures@) == pure_only(func_candidates(all.take(i as int))),
        decreases v@.len() - i,
    {
        let f: &Function = &v[i];
        let ghost before = func_candidates(all.take(i as int));
        assert(all.take(i + 1).drop_last() =~= all.take(i as int));
        assert(all.take(i + 1).last() == f@);
        if is_inlinable(f) {
            let copy: Function = f.clone();
            proof {
                lemma_funcs_map_insert(funcs@, f.id, copy);
            }
            funcs.insert(f.id, copy);
            if is_pure_function(f) {
                let copy: Function = f.clone();
                proof {
                    lemma_funcs_map_insert(pures@, f.id, copy);
                }
                pures.insert(f.id, copy);
            } else {
                let ghost old_pures = pures@;
                pures.remove(&f.id);
                assert(funcs_map(pures@) =~= funcs_map(old_pures).remove(f.id));
            }
            assert(funcs_map(pures@) =~= pure_only(before.insert(f.id, f@)));
        }
        i += 1;
    }
    assert(all.take(i as int) =~= all);
    (funcs, pures)
}

fn collect_methods_of(class: &String, v: &Vec<Function>, out: &mut Vec<MethodCandidate>)
    ensures
        methods_view(final(out)@) == methods_view(old(out)@) + methods_of(
            class@,
            functions_view(v@),
        ),
{
    let ghost all = functions_view(v@);
    let ghost start = methods_view(out@);
    let mut i: usize = 0;
    assert(start + methods_of(class@, all.take(0)) =~= start);
    while i < v.len()
        invariant
            i <= v@.len(),
            all == functions_view(v@),
            start == methods_view(old(out)@),
            methods_view(out@) == start + methods_of(class@, all.take(i as int)),
        decreases v@.len() - i,
    {
        let f: &Function = &v[i];
        assert(all.take(i + 1).drop_last() =~= all.take(i as int));
        assert(all.take(i + 1).last() == f@);
        if is_inlinable(f) {
            let ghost before = methods_view(out@);
            out.push(MethodCandidate { class_name: class.clone(), func: f.clone() });
            assert(methods_view(out@) =~= before.push((class@, f@)));
            assert(before.push((class@, f@)) =~= start + methods_of(class@, all.take(i + 1)));
        }
        i += 1;
    }
    assert(all.take(i as int) =~= all);
}

fn collect_method_candidates(v: &Vec<Class>) -> (r: Vec<MethodCandidate>)
    ensures
        methods_view(r@) == method_candidates(classes_view(v@)),
{
    let ghost all = classes_view(v@);
    let mut out: Vec<MethodCandidate> = Vec::new();
    assert(methods_view(out@) =~= Seq::empty());
    let mut i: usize = 0;
    while i < v.len()
        invariant
            i <= v@.len(),
            all == classes_view(v@),
            methods_view(out@) == method_candidates(all.take(i as int)),
        decreases v@.len() - i,
    {
        let c: &Class = &v[i];
        assert(all.take(i + 1).drop_last() =~= all.take(i as int));
        assert(all.take(i + 1).last() == c@);
        if c.native_extends.is_none() {
            collect_methods_of(&c.name, &c.methods, &mut out);
        }
        i += 1;
    }
    assert(all.take(i as int) =~= all);
    out
}

fn types_of_params(v: &Vec<Param>) -> (r: HashMap<LocalId, String>)
    ensures
        types_map(r@) == param_types(params_view(v@)),
{
    let ghost all = params_view(v@);
    let mut m: HashMap<LocalId, String> = HashMap::new();
    assert(types_map(m@) =~= Map::empty());
    let mut i: usize = 0;
    while i < v.len()
        invariant
            i <= v@.len(),
            all == params_view(v@),
            all.len() == v@.len(),
            types_map(m@) == param_types(all.take(i as int)),
        decreases v@.len() - i,
    {
        let p: &Param = &v[i];
        assert(all.take(i + 1).drop_last() =~= all.take(i as int));
        assert(all.take(i + 1).last() == p@);
        match &p.ty {
            Type::Named(class) => {
                let ghost before = m@;
                m.insert(p.id, class.clone());
                assert(types_map(m@) =~= types_map(before).insert(p.id, class@));
            },
            _ => {},
        }
        i += 1;
    }
    assert(all.take(i as int) =~= all);
    m
}

/// The function with another body.
fn replace_body(f: &Function, body: Vec<Stmt>) -> (r: Function)
    ensures
        r@ == with_body(f@, stmts_view(body@)),
{
    Function {
        id: f.id,
        name: f.name.clone(),
        params: copy_params(&f.params),
        return_type: f.return_type.clone(),
        body,
        is_async: f.is_async,
        is_generator: f.is_generator,
        captures: copy_ids(&f.captures),
    }
}

fn imul_in_function(f: &Function, ids: &HashSet<FuncId>) -> (r: Function)
    ensures
        r@ == imul_in(f@, ids@),
{
    let mut body: Vec<Stmt> = copy_stmts(&f.body);
    rewrite_imul_calls_in_stmts(&mut body, ids);
    replace_body(f, body)
}

fn imul_in_functions(v: &Vec<Function>, ids: &HashSet<FuncId>) -> (r: Vec<Function>)
    ensures
        functions_view(r@) == functions_view(v@).map_values(
            |f: FunctionView| if ids@.contains(f.id) { f } else { imul_in(f, ids@) },
        ),
{
    let mut out: Vec<Function> = Vec::new();
    let mut i: usize = 0;
    while i < v.len()
        invariant
            i <= v@.len(),
            out@.len() == i,
            forall|j: int|
                0 <= j < i ==> (#[trigger] out@[j]).view() == if ids@.contains(v@[j].id) {
                    v@[j].view()
                } else {
                    imul_in(v@[j].view(), ids@)
                },
        decreases v@.len() - i,
    {
        if ids.contains(&v[i].id) {
            out.push(v[i].clone());
        } else {
            out.push(imul_in_function(&v[i], ids));
        }
        i += 1;
    }
    assert(functions_view(out@) =~= functions_view(v@).map_values(
        |f: FunctionView| if ids@.contains(f.id) { f } else { imul_in(f, ids@) },
    ));
    out
}

fn imul_in_methods(v: &Vec<Function>, ids: &HashSet<FuncId>) -> (r: Vec<Function>)
    ensures
        functions_view(r@) == functions_view(v@).map_values(|f: FunctionView| imul_in(f, ids@)),
{
    let mut out: Vec<Function> = Vec::new();
    let mut i: usize = 0;
    while i < v.len()
        invariant
            i <= v@.len(),
            out@.len() == i,
            forall|j: int|
                0 <= j < i ==> (#[trigger] out@[j]).view() == imul_in(v@[j].view(), ids@),
        decreases v@.len() - i,
    {
        out.push(imul_in_function(&v[i], ids));
        i += 1;
    }
    assert(functions_view(out@) =~= functions_view(v@).map_values(
        |f: FunctionView| imul_in(f, ids@),
    ));
    out
}

fn rewritten_accessors(v: &Vec<(String, Function)>, ids: &HashSet<FuncId>) -> (r: Vec<
    (String, Function),
>)
    ensures
        accessors_view(r@) == imul_in_accessors(accessors_view(v@), ids@),
{
    let mut out: Vec<(String, Function)> = Vec::new();
    let mut i: usize = 0;
    while i < v.len()
        invariant
            i <= v@.len(),
            out@.len() == i,
            forall|j: int|
                0 <= j < i ==> (#[trigger] out@[j]).0@ == v@[j].0@ && out@[j].1.view() == imul_in(
                    v@[j].1.view(),
                    ids@,
                ),
        decreases v@.len() - i,
    {
        out.push((v[i].0.clone(), imul_in_function(&v[i].1, ids)));
        i += 1;
    }
    assert(accessors_view(out@) =~= imul_in_accessors(accessors_view(v@), ids@));
    out
}

/// The class with the calls of the multiplications rewritten.
fn rewritten_class(c: &Class, ids: &HashSet<FuncId>) -> (r: Class)
    ensures
        r@ == imul_in_class(c@, ids@),
{
    let constructor: Option<Function> = match &c.constructor {
        Some(f) => Some(imul_in_function(f, ids)),
        None => None,
    };
    Class {
        name: c.name.clone(),
        native_extends: copy_opt_str(&c.native_extends),
        fields: copy_class_fields(&c.fields),
        constructor,
        methods: imul_in_methods(&c.methods, ids),
        getters: rewritten_accessors(&c.getters, ids),
        setters: rewritten_accessors(&c.setters, ids),
        static_methods: imul_in_methods(&c.static_methods, ids),
    }
}

/// The class with other methods.
fn replace_methods(c: &Class, methods: Vec<Function>) -> (r: Class)
    ensures
        r@ == (ClassView { methods: functions_view(methods@), ..c@ }),
{
    Class {
        name: c.name.clone(),
        native_extends: copy_opt_str(&c.native_extends),
        fields: copy_class_fields(&c.fields),
        constructor: copy_opt_function(&c.constructor),
        methods,
        getters: copy_accessors(&c.getters),
        setters: copy_accessors(&c.setters),
        static_methods: copy_functions(&c.static_methods),
    }
}

fn imul_in_classes(v: &Vec<Class>, ids: &HashSet<FuncId>) -> (r: Vec<Class>)
    ensures
        classes_view(r@) == classes_view(v@).map_values(|c: ClassView| imul_in_class(c, ids@)),
{
    let mut out: Vec<Class> = Vec::new();
    let mut i: usize = 0;
    while i < v.len()
        invariant
            i <= v@.len(),
            out@.len() == i,
            forall|j: int|
                0 <= j < i ==> (#[trigger] out@[j]).view() == imul_in_class(v@[j].view(), ids@),
        decreases v@.len() - i,
    {
        out.push(rewritten_class(&v[i], ids));
        i += 1;
    }
    assert(classes_view(out@) =~= classes_view(v@).map_values(
        |c: ClassView| imul_in_class(c, ids@),
    ));
    out
}

fn inline_in_function(f: &Function, c: &Candidates, n: LocalId, depth: usize) -> (r: Option<
    (Function, LocalId),
>)
    ensures
        (match r {
            Some((g, n1)) => Some((g@, n1 as nat)),
            None => None,
        }) == inline_in(f@, c@, n as nat, depth as nat),
{
    let mut types: HashMap<LocalId, String> = types_of_params(&f.params);
    match inline_calls_in_stmts(&f.body, c, &mut types, n, depth) {
        Some((body, n1)) => Some((replace_body(f, body), n1)),
        None => None,
    }
}

proof fn lemma_functions_stop(
    v: Seq<FunctionView>,
    j: nat,
    k: nat,
    c: CandidatesView,
    n: nat,
    depth: nat,
)
    requires
        j <= k <= v.len(),
        inline_in_functions(v, j, c, n, depth) is None,
    ensures
        inline_in_functions(v, k, c, n, depth) is None,
    decreases k,
{
    if j < k {
        lemma_functions_stop(v, j, (k - 1) as nat, c, n, depth);
    }
}

proof fn lemma_methods_stop(
    class: Seq<char>,
    v: Seq<FunctionView>,
    j: nat,
    k: nat,
    c: CandidatesView,
    n: nat,
    depth: nat,
)
    requires
        j <= k <= v.len(),
        inline_in_methods(class, v, j, c, n, depth) is None,
    ensures
        inline_in_methods(class, v, k, c, n, depth) is None,
    decreases k,
{
    if j < k {
        lemma_methods_stop(class, v, j, (k - 1) as nat, c, n, depth);
    }
}

proof fn lemma_classes_stop(
    v: Seq<ClassView>,
    j: nat,
    k: nat,
    c: CandidatesView,
    n: nat,
    depth: nat,
)
    requires
        j <= k <= v.len(),
        inline_in_classes(v, j, c, n, depth) is None,
    ensures
        inline_in_classes(v, k, c, n, depth) is None,
    decreases k,
{
    if j < k {
        lemma_classes_stop(v, j, (k - 1) as nat, c, n, depth);
    }
}

fn inline_functions_phase(v: &Vec<Function>, c: &Candidates, n: LocalId, depth: usize) -> (r: Option<
    (Vec<Function>, LocalId),
>)
    ensures
        (match r {
            Some((out, n1)) => Some((functions_view(out@), n1 as nat)),
            None => None,
        }) == inline_in_functions(functions_view(v@), v@.len(), c@, n as nat, depth as nat),
{
    let ghost all = functions_view(v@);
    let mut out: Vec<Function> = Vec::new();
    let mut next: LocalId = n;
    let mut k: usize = 0;
    assert(functions_view(out@) =~= Seq::empty());
    while k < v.len()
        invariant
            k <= v@.len(),
            all == functions_view(v@),
            inline_in_functions(all, k as nat, c@, n as nat, depth as nat) == Some(
                (functions_view(out@), next as nat),
            ),
        decreases v@.len() - k,
    {
        let f: &Function = &v[k];
        assert(all[k as int] == f@);
        let ghost before = functions_view(out@);
        if c.funcs.contains_key(&f.id) {
            out.push(f.clone());
            assert(functions_view(out@) =~= before.push(f@));
        } else {
            match inline_in_function(f, c, next, depth) {
                Some((g, n1)) => {
                    out.push(g);
                    next = n1;
                    assert(functions_view(out@) =~= before.push(g@));
                },
                None => {
                    proof {
                        lemma_functions_stop(
                            all,
                            (k + 1) as nat,
                            all.len(),
                            c@,
                            n as nat,
                            depth as nat,
                        );
                    }
                    return None;
                },
            }
        }
        k += 1;
    }
    Some((out, next))
}

fn inline_methods_phase(
    class: &String,
    v: &Vec<Function>,
    c: &Candidates,
    n: LocalId,
    depth: usize,
) -> (r: Option<(Vec<Function>, LocalId)>)
    ensures
        (match r {
            Some((out, n1)) => Some((functions_view(out@), n1 as nat)),
            None => None,
        }) == inline_in_methods(class@, functions_view(v@), v@.len(), c@, n as nat, depth as nat),
{
    let ghost all = functions_view(v@);
    let mut out: Vec<Function> = Vec::new();
    let mut next: LocalId = n;
    let mut k: usize = 0;
    assert(functions_view(out@) =~= Seq::empty());
    while k < v.len()
        invariant
            k <= v@.len(),
            all == functions_view(v@),
            inline_in_methods(class@, all, k as nat, c@, n as nat, depth as nat) == Some(
                (functions_view(out@), next as nat),
            ),
        decreases v@.len() - k,
    {
        let f: &Function = &v[k];
        assert(all[k as int] == f@);
        let ghost before = functions_view(out@);
        if lookup_method(c.methods, class, &f.name).is_some() {
            out.push(f.clone());
            assert(functions_view(out@) =~= before.push(f@));
        } else {
            match inline_in_function(f, c, next, depth) {
                Some((g, n1)) => {
                    out.push(g);
                    next = n1;
                    assert(functions_view(out@) =~= before.push(g@));
                },
                None => {
                    proof {
                        lemma_methods_stop(
                            class@,
                            all,
                            (k + 1) as nat,
                            all.len(),
                            c@,
                            n as nat,
                            depth as nat,
                        );
                    }
                    return None;
                },
            }
        }
        k += 1;
    }
    Some((out, next))
}

fn inline_classes_phase(v: &Vec<Class>, c: &Candidates, n: LocalId, depth: usize) -> (r: Option<
    (Vec<Class>, LocalId),
>)
    ensures
        (match r {
            Some((out, n1)) => Some((classes_view(out@), n1 as nat)),
            None => None,
        }) == inline_in_classes(classes_view(v@), v@.len(), c@, n as nat, depth as nat),
{
    let ghost all = classes_view(v@);
    let mut out: Vec<Class> = Vec::new();
    let mut next: LocalId = n;
    let mut k: usize = 0;
    assert(classes_view(out@) =~= Seq::empty());
    while k < v.len()
        invariant
            k <= v@.len(),
            all == classes_view(v@),
            inline_in_classes(all, k as nat, c@, n as nat, depth as nat) == Some(
                (classes_view(out@), next as nat),
            ),
        decreases v@.len() - k,
    {
        let class: &Class = &v[k];
        assert(all[k as int] == class@);
        let ghost before = classes_view(out@);
        match inline_methods_phase(&class.name, &class.methods, c, next, depth) {
            Some((methods, n1)) => {
                let x: Class = replace_methods(class, methods);
                out.push(x);
                next = n1;
                assert(classes_view(out@) =~= before.push(x@));
            },
            None => {
                proof {
                    lemma_classes_stop(
                        all,
                        (k + 1) as nat,
                        all.len(),
                        c@,
                        n as nat,
                        depth as nat,
                    );
                }
                return None;
            },
        }
        k += 1;
    }
    Some((out, next))
}

/// The module after the pass, as far as `depth` and the ids suffice.
fn inlined_module(module: &Module, depth: usize) -> (r: Option<Module>)
    ensures
        (match r {
            Some(m) => Some(m@),
            None => None,
        }) == inline_module(module@, depth as nat),
{
    let ids = collect_imul_ids(&module.functions);
    let mut init: Vec<Stmt> = copy_stmts(&module.init);
    rewrite_imul_calls_in_stmts(&mut init, &ids);
    let m1 = Module {
        name: module.name.clone(),
        classes: imul_in_classes(&module.classes, &ids),
        functions: imul_in_functions(&module.functions, &ids),
        init,
    };
    let (funcs, pures) = collect_func_candidates(&m1.functions);
    let methods = collect_method_candidates(&m1.classes);
    let ghost view1 = m1@;
    assert(view1 == imul_in_module(module@, ids@));
    let max1: LocalId = find_max_local_id_in_module(&m1);
    if max1 == u32::MAX {
        return None;
    }
    let mut types: HashMap<LocalId, String> = HashMap::new();
    assert(types_map(types@) =~= Map::empty());
    let c = Candidates { funcs: &pures, methods: &methods };
    let init: Vec<Stmt> = match inline_calls_in_stmts(&m1.init, &c, &mut types, max1 + 1, depth) {
        Some((out, _)) => out,
        None => {
            return None;
        },
    };
    let m2 = Module { name: m1.name, classes: m1.classes, functions: m1.functions, init };
    let max2: LocalId = find_max_local_id_in_module(&m2);
    let max: LocalId = if max1 < max2 {
        max2
    } else {
        max1
    };
    if max == u32::MAX {
        return None;
    }
    let c = Candidates { funcs: &funcs, methods: &methods };
    match inline_functions_phase(&m2.functions, &c, max + 1, depth) {
        Some((functions, n1)) => match inline_classes_phase(&m2.classes, &c, n1, depth) {
            Some((classes, _)) => Some(Module { name: m2.name, classes, functions, init: m2.init }),
            None => None,
        },
        None => None,
    }
}

/// Inlines small functions and methods in the module, where what a call turns
/// into is searched for calls again at most `depth` times in a row and the ids
/// suffice. The result says whether they did; if not, the module stays as it is.
pub fn inline_functions_within(module: &mut Module, depth: usize) -> (r: bool)
    ensures
        match inline_module(old(module)@, depth as nat) {
            Some(m) => r && final(module)@ == m,
            None => !r && *final(module) == *old(module),
        },
{
    match inlined_module(module, depth) {
        Some(m) => {
            *module = m;
            true
        },
        None => false,
    }
}

/// Inlines small functions and methods in the module. Functions that go on
/// calling each other without end, and modules with no ids left, are not for it;
/// [`inline_functions_within`] tells.
pub fn inline_functions(module: &mut Module)
    requires
        inline_module(old(module)@, usize::MAX as nat) is Some,
    ensures
        Some(final(module)@) == inline_module(old(module)@, usize::MAX as nat),
{
    inline_functions_within(module, usize::MAX);
}

} // verus!

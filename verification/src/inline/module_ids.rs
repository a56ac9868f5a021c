//! The local ids that a module names anywhere, and the largest of them.

use crate::hir::{Class, ClassField, Expr, Function, LocalId, Module};
use crate::inline::scan::{
    expr_has, find_max_in_expr, find_max_local_id, max_of_ids, max_of_params, larger, param_ids,
    stmts_have, NodeTest,
};
use crate::model::{
    accessors_view, class_fields_view, classes_view, functions_view, ClassView, ExprView, FieldView,
    FunctionView, ModuleView,
};
use crate::walk::{default_values, param_defaults};
use vstd::prelude::*;

verus! {

/// Whether one of the expressions names the local id.
pub open spec fn exprs_name(v: Seq<ExprView>, x: LocalId) -> bool {
    exists|i: int| 0 <= i < v.len() && #[trigger] expr_has(v[i], NodeTest::Names(x))
}

/// Whether the function names the local id: as a parameter, in the default of
/// one, in its captures or in its body.
pub open spec fn function_names(f: FunctionView, x: LocalId) -> bool {
    ||| param_ids(f.params).contains(x)
    ||| exprs_name(param_defaults(f.params), x)
    ||| f.captures.contains(x)
    ||| stmts_have(f.body, NodeTest::Names(x))
}

pub open spec fn functions_name(v: Seq<FunctionView>, x: LocalId) -> bool {
    exists|i: int| 0 <= i < v.len() && #[trigger] function_names(v[i], x)
}

pub open spec fn accessors_name(v: Seq<(Seq<char>, FunctionView)>, x: LocalId) -> bool {
    exists|i: int| 0 <= i < v.len() && #[trigger] function_names(v[i].1, x)
}

pub open spec fn field_names(f: FieldView, x: LocalId) -> bool {
    f.init is Some && expr_has(f.init->0, NodeTest::Names(x))
}

pub open spec fn fields_name(v: Seq<FieldView>, x: LocalId) -> bool {
    exists|i: int| 0 <= i < v.len() && #[trigger] field_names(v[i], x)
}

/// Whether the class names the local id: in a field initializer, in its
/// constructor, or in a method or an accessor, static methods included.
pub open spec fn class_names(c: ClassView, x: LocalId) -> bool {
    ||| fields_name(c.fields, x)
    ||| (c.constructor is Some && function_names(c.constructor->0, x))
    ||| functions_name(c.methods, x)
    ||| accessors_name(c.getters, x)
    ||| accessors_name(c.setters, x)
    ||| functions_name(c.static_methods, x)
}

pub open spec fn classes_name(v: Seq<ClassView>, x: LocalId) -> bool {
    exists|i: int| 0 <= i < v.len() && #[trigger] class_names(v[i], x)
}

/// Whether the module names the local id anywhere.
pub open spec fn module_names(m: ModuleView, x: LocalId) -> bool {
    ||| stmts_have(m.init, NodeTest::Names(x))
    ||| functions_name(m.functions, x)
    ||| classes_name(m.classes, x)
}

/// Whether `id` bounds every local id that the module names and, unless it is
/// 0, is one of them.
pub open spec fn max_in_module(id: LocalId, m: ModuleView) -> bool {
    &&& forall|x: LocalId| #[trigger] module_names(m, x) ==> x <= id
    &&& id == 0 || module_names(m, id)
}

/// The largest local id that the module names, or 0 where it names none.
pub open spec fn module_max(m: ModuleView) -> LocalId {
    choose|id: LocalId| max_in_module(id, m)
}

/// Going down from a bound one comes to the largest id that is named.
proof fn lemma_max_below(m: ModuleView, bound: LocalId)
    requires
        forall|x: LocalId| #[trigger] module_names(m, x) ==> x <= bound,
    ensures
        exists|id: LocalId| max_in_module(id, m),
    decreases bound,
{
    if bound == 0 || module_names(m, bound) {
        assert(max_in_module(bound, m));
    } else {
        lemma_max_below(m, (bound - 1) as LocalId);
    }
}

/// There is a largest id.
pub proof fn lemma_module_max_exists(m: ModuleView)
    ensures
        max_in_module(module_max(m), m),
{
    lemma_max_below(m, LocalId::MAX);
}

/// There is one such id.
pub proof fn lemma_module_max(id: LocalId, m: ModuleView)
    requires
        max_in_module(id, m),
    ensures
        id == module_max(m),
        max_in_module(module_max(m), m),
{
    let other = module_max(m);
    assert(max_in_module(other, m));
}

fn find_max_in_exprs(v: &Vec<&Expr>, Ghost(model): Ghost<Seq<ExprView>>) -> (r: LocalId)
    requires
        v@.len() == model.len(),
        forall|i: int| 0 <= i < v@.len() ==> (#[trigger] v@[i]).view() == model[i],
    ensures
        forall|x: LocalId| #[trigger] exprs_name(model, x) ==> x <= r,
        r == 0 || exprs_name(model, r),
{
    let mut m: LocalId = 0;
    let mut i: usize = 0;
    while i < v.len()
        invariant
            i <= v@.len(),
            v@.len() == model.len(),
            forall|i: int| 0 <= i < v@.len() ==> (#[trigger] v@[i]).view() == model[i],
            forall|j: int, x: LocalId|
                0 <= j < i && #[trigger] expr_has(model[j], NodeTest::Names(x)) ==> x <= m,
            m == 0 || exprs_name(model, m),
        decreases v@.len() - i,
    {
        let k: LocalId = find_max_in_expr(v[i]);
        assert(expr_has(model[i as int], NodeTest::Names(k)) ==> exprs_name(model, k));
        m = larger(m, k);
        i += 1;
    }
    m
}

fn find_max_in_function(f: &Function) -> (r: LocalId)
    ensures
        forall|x: LocalId| #[trigger] function_names(f@, x) ==> x <= r,
        r == 0 || function_names(f@, r),
{
    let defaults: Vec<&Expr> = default_values(&f.params);
    let a: LocalId = max_of_params(&f.params);
    let b: LocalId = find_max_in_exprs(&defaults, Ghost(param_defaults(f@.params)));
    let c: LocalId = max_of_ids(&f.captures);
    let d: LocalId = find_max_local_id(&f.body);
    larger(larger(a, b), larger(c, d))
}

fn find_max_in_functions(v: &Vec<Function>) -> (r: LocalId)
    ensures
        forall|x: LocalId| #[trigger] functions_name(functions_view(v@), x) ==> x <= r,
        r == 0 || functions_name(functions_view(v@), r),
{
    let mut m: LocalId = 0;
    let mut i: usize = 0;
    let ghost all = functions_view(v@);
    while i < v.len()
        invariant
            i <= v@.len(),
            all == functions_view(v@),
            forall|j: int, x: LocalId| 0 <= j < i && #[trigger] function_names(all[j], x) ==> x <= m,
            m == 0 || functions_name(all, m),
        decreases v@.len() - i,
    {
        let k: LocalId = find_max_in_function(&v[i]);
        assert(function_names(all[i as int], k) ==> functions_name(all, k));
        m = larger(m, k);
        i += 1;
    }
    m
}

fn find_max_in_accessors(v: &Vec<(String, Function)>) -> (r: LocalId)
    ensures
        forall|x: LocalId| #[trigger] accessors_name(accessors_view(v@), x) ==> x <= r,
        r == 0 || accessors_name(accessors_view(v@), r),
{
    let mut m: LocalId = 0;
    let mut i: usize = 0;
    let ghost all = accessors_view(v@);
    while i < v.len()
        invariant
            i <= v@.len(),
            all == accessors_view(v@),
            forall|j: int, x: LocalId| 0 <= j < i && #[trigger] function_names(all[j].1, x) ==> x <= m,
            m == 0 || accessors_name(all, m),
        decreases v@.len() - i,
    {
        let k: LocalId = find_max_in_function(&v[i].1);
        assert(function_names(all[i as int].1, k) ==> accessors_name(all, k));
        m = larger(m, k);
        i += 1;
    }
    m
}

fn find_max_in_fields(v: &Vec<ClassField>) -> (r: LocalId)
    ensures
        forall|x: LocalId| #[trigger] fields_name(class_fields_view(v@), x) ==> x <= r,
        r == 0 || fields_name(class_fields_view(v@), r),
{
    let mut m: LocalId = 0;
    let mut i: usize = 0;
    let ghost all = class_fields_view(v@);
    while i < v.len()
        invariant
            i <= v@.len(),
            all == class_fields_view(v@),
            forall|j: int, x: LocalId| 0 <= j < i && #[trigger] field_names(all[j], x) ==> x <= m,
            m == 0 || fields_name(all, m),
        decreases v@.len() - i,
    {
        let k: LocalId = match &v[i].init {
            Some(e) => find_max_in_expr(e),
            None => 0,
        };
        assert(field_names(all[i as int], k) ==> fields_name(all, k));
        m = larger(m, k);
        i += 1;
    }
    m
}

fn find_max_in_class(c: &Class) -> (r: LocalId)
    ensures
        forall|x: LocalId| #[trigger] class_names(c@, x) ==> x <= r,
        r == 0 || class_names(c@, r),
{
    let ctor: LocalId = match &c.constructor {
        Some(f) => find_max_in_function(f),
        None => 0,
    };
    let a: LocalId = larger(find_max_in_fields(&c.fields), ctor);
    let b: LocalId = larger(find_max_in_functions(&c.methods), find_max_in_accessors(&c.getters));
    let d: LocalId = larger(
        find_max_in_accessors(&c.setters),
        find_max_in_functions(&c.static_methods),
    );
    larger(a, larger(b, d))
}

fn find_max_in_classes(v: &Vec<Class>) -> (r: LocalId)
    ensures
        forall|x: LocalId| #[trigger] classes_name(classes_view(v@), x) ==> x <= r,
        r == 0 || classes_name(classes_view(v@), r),
{
    let mut m: LocalId = 0;
    let mut i: usize = 0;
    let ghost all = classes_view(v@);
    while i < v.len()
        invariant
            i <= v@.len(),
            all == classes_view(v@),
            forall|j: int, x: LocalId| 0 <= j < i && #[trigger] class_names(all[j], x) ==> x <= m,
            m == 0 || classes_name(all, m),
        decreases v@.len() - i,
    {
        let k: LocalId = find_max_in_class(&v[i]);
        assert(class_names(all[i as int], k) ==> classes_name(all, k));
        m = larger(m, k);
        i += 1;
    }
    m
}

/// The largest local id that the module names anywhere: in its init statements,
/// in functions, in class constructors, methods, accessors and field
/// initializers, and in closures nested in any of these. It is 0 where the
/// module names none.
pub fn find_max_local_id_in_module(module: &Module) -> (r: LocalId)
    ensures
        max_in_module(r, module@),
        r == module_max(module@),
{
    let a: LocalId = find_max_local_id(&module.init);
    let b: LocalId = find_max_in_functions(&module.functions);
    let c: LocalId = find_max_in_classes(&module.classes);
    let r: LocalId = larger(a, larger(b, c));
    proof {
        lemma_module_max(r, module@);
    }
    r
}

} // verus!

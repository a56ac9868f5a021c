//! Rewrites of a whole module: of its init statements, and of everything that its
//! functions and classes hold.

use crate::copy::{copy_ids, copy_opt_str};
use crate::hir::{Class, ClassField, Function, Module};
use crate::inline::scan::{opt_expr_has, stmts_have, NodeTest};
use crate::model::{
    accessors_view, class_fields_view, classes_view, functions_view, ClassView, ExprView, FieldView,
    FunctionView, ModuleView,
};
use crate::rewrite::{
    rewrite_expr, rewrite_params, rewrite_stmts, rewritten_opt, rewritten_params, rewritten_stmts,
    Pass, Rewrite,
};
use crate::rewrite_laws::{
    idle, law_idle_rewrite_keeps_expr, law_idle_rewrite_keeps_stmts, law_nothing_is_left,
    law_nothing_is_left_in_stmts, lemma_idle_params, settles, target,
};
use vstd::prelude::*;

verus! {

// ---------------------------------------------------------------------------
// Model
// ---------------------------------------------------------------------------

/// The function with its defaults and its body rewritten.
pub open spec fn rewrite_function(f: FunctionView, r: Rewrite) -> FunctionView {
    FunctionView { params: rewrite_params(f.params, r), body: rewrite_stmts(f.body, r), ..f }
}

pub open spec fn rewrite_functions(v: Seq<FunctionView>, r: Rewrite) -> Seq<FunctionView> {
    v.map_values(|f: FunctionView| rewrite_function(f, r))
}

pub open spec fn rewrite_accessors(v: Seq<(Seq<char>, FunctionView)>, r: Rewrite) -> Seq<
    (Seq<char>, FunctionView),
> {
    v.map_values(|a: (Seq<char>, FunctionView)| (a.0, rewrite_function(a.1, r)))
}

/// The field with its initial value rewritten.
pub open spec fn rewrite_field(f: FieldView, r: Rewrite) -> FieldView {
    FieldView {
        name: f.name,
        init: match f.init {
            Some(e) => Some(rewrite_expr(e, r)),
            None => None,
        },
    }
}

/// The class with its fields and all its functions rewritten.
pub open spec fn rewrite_class(c: ClassView, r: Rewrite) -> ClassView {
    ClassView {
        name: c.name,
        native_extends: c.native_extends,
        fields: c.fields.map_values(|f: FieldView| rewrite_field(f, r)),
        constructor: match c.constructor {
            Some(f) => Some(rewrite_function(f, r)),
            None => None,
        },
        methods: rewrite_functions(c.methods, r),
        getters: rewrite_accessors(c.getters, r),
        setters: rewrite_accessors(c.setters, r),
        static_methods: rewrite_functions(c.static_methods, r),
    }
}

/// The module with everything in it rewritten.
pub open spec fn rewrite_module(m: ModuleView, r: Rewrite) -> ModuleView {
    ModuleView {
        name: m.name,
        classes: m.classes.map_values(|c: ClassView| rewrite_class(c, r)),
        functions: rewrite_functions(m.functions, r),
        init: rewrite_stmts(m.init, r),
    }
}

// ---------------------------------------------------------------------------
// Laws
// ---------------------------------------------------------------------------

/// Whether no default and no statement of the function holds such a node.
pub open spec fn function_lacks(f: FunctionView, t: NodeTest) -> bool {
    &&& forall|i: int| 0 <= i < f.params.len() ==> !opt_expr_has((#[trigger] f.params[i]).default, t)
    &&& !stmts_have(f.body, t)
}

pub open spec fn functions_lack(v: Seq<FunctionView>, t: NodeTest) -> bool {
    forall|i: int| 0 <= i < v.len() ==> function_lacks(#[trigger] v[i], t)
}

pub open spec fn accessors_lack(v: Seq<(Seq<char>, FunctionView)>, t: NodeTest) -> bool {
    forall|i: int| 0 <= i < v.len() ==> function_lacks((#[trigger] v[i]).1, t)
}

/// Whether nothing in the class holds such a node.
pub open spec fn class_lacks(c: ClassView, t: NodeTest) -> bool {
    &&& forall|i: int| 0 <= i < c.fields.len() ==> !opt_expr_has((#[trigger] c.fields[i]).init, t)
    &&& c.constructor matches Some(f) ==> function_lacks(f, t)
    &&& functions_lack(c.methods, t)
    &&& accessors_lack(c.getters, t)
    &&& accessors_lack(c.setters, t)
    &&& functions_lack(c.static_methods, t)
}

/// Whether nothing in the module holds such a node.
pub open spec fn module_lacks(m: ModuleView, t: NodeTest) -> bool {
    &&& !stmts_have(m.init, t)
    &&& functions_lack(m.functions, t)
    &&& forall|i: int| 0 <= i < m.classes.len() ==> class_lacks(#[trigger] m.classes[i], t)
}

proof fn lemma_opt_lacks(o: Option<ExprView>, r: Rewrite)
    requires
        settles(r),
    ensures
        !opt_expr_has(
            match o {
                Some(e) => Some(rewrite_expr(e, r)),
                None => None,
            },
            target(r),
        ),
{
    match o {
        Some(e) => law_nothing_is_left(e, r),
        None => {},
    }
}

proof fn lemma_function_lacks(f: FunctionView, r: Rewrite)
    requires
        settles(r),
    ensures
        function_lacks(rewrite_function(f, r), target(r)),
{
    let out = rewrite_function(f, r);
    law_nothing_is_left_in_stmts(f.body, r);
    assert forall|i: int| 0 <= i < out.params.len() implies !opt_expr_has(
        (#[trigger] out.params[i]).default,
        target(r),
    ) by {
        lemma_opt_lacks(f.params[i].default, r);
    }
}

proof fn lemma_functions_lack(v: Seq<FunctionView>, r: Rewrite)
    requires
        settles(r),
    ensures
        functions_lack(rewrite_functions(v, r), target(r)),
{
    let out = rewrite_functions(v, r);
    assert forall|i: int| 0 <= i < out.len() implies function_lacks(
        #[trigger] out[i],
        target(r),
    ) by {
        lemma_function_lacks(v[i], r);
    }
}

proof fn lemma_accessors_lack(v: Seq<(Seq<char>, FunctionView)>, r: Rewrite)
    requires
        settles(r),
    ensures
        accessors_lack(rewrite_accessors(v, r), target(r)),
{
    let out = rewrite_accessors(v, r);
    assert forall|i: int| 0 <= i < out.len() implies function_lacks(
        (#[trigger] out[i]).1,
        target(r),
    ) by {
        lemma_function_lacks(v[i].1, r);
    }
}

/// No part of a module is left out where something is looked for in it: what the module
/// lacks, its init statements, the bodies of its functions, the defaults of their
/// parameters, and the fields and all functions of its classes lack.
pub proof fn law_module_lacks_in_every_part(m: ModuleView, t: NodeTest, i: int, j: int)
    requires
        module_lacks(m, t),
    ensures
        !stmts_have(m.init, t),
        0 <= i < m.functions.len() ==> !stmts_have(m.functions[i].body, t) && (0 <= j
            < m.functions[i].params.len() ==> !opt_expr_has(m.functions[i].params[j].default, t)),
        0 <= i < m.classes.len() ==> {
            let c = m.classes[i];
            &&& c.constructor matches Some(f) ==> !stmts_have(f.body, t)
            &&& 0 <= j < c.fields.len() ==> !opt_expr_has(c.fields[j].init, t)
            &&& 0 <= j < c.methods.len() ==> !stmts_have(c.methods[j].body, t)
            &&& 0 <= j < c.getters.len() ==> !stmts_have(c.getters[j].1.body, t)
            &&& 0 <= j < c.setters.len() ==> !stmts_have(c.setters[j].1.body, t)
            &&& 0 <= j < c.static_methods.len() ==> !stmts_have(c.static_methods[j].body, t)
        },
{
    if 0 <= i < m.functions.len() {
        assert(function_lacks(m.functions[i], t));
    }
    if 0 <= i < m.classes.len() {
        let c = m.classes[i];
        assert(class_lacks(c, t));
        if 0 <= j < c.methods.len() {
            assert(function_lacks(c.methods[j], t));
        }
        if 0 <= j < c.getters.len() {
            assert(function_lacks(c.getters[j].1, t));
        }
        if 0 <= j < c.setters.len() {
            assert(function_lacks(c.setters[j].1, t));
        }
        if 0 <= j < c.static_methods.len() {
            assert(function_lacks(c.static_methods[j], t));
        }
    }
}

/// After such a rewrite nothing of what it replaces is left in the module.
pub proof fn law_nothing_is_left_in_module(m: ModuleView, r: Rewrite)
    requires
        settles(r),
    ensures
        module_lacks(rewrite_module(m, r), target(r)),
{
    let t = target(r);
    let out = rewrite_module(m, r);
    law_nothing_is_left_in_stmts(m.init, r);
    lemma_functions_lack(m.functions, r);
    assert forall|i: int| 0 <= i < out.classes.len() implies class_lacks(
        #[trigger] out.classes[i],
        t,
    ) by {
        let c = m.classes[i];
        let fields = out.classes[i].fields;
        assert forall|j: int| 0 <= j < fields.len() implies !opt_expr_has(
            (#[trigger] fields[j]).init,
            t,
        ) by {
            lemma_opt_lacks(c.fields[j].init, r);
        }
        match c.constructor {
            Some(f) => lemma_function_lacks(f, r),
            None => {},
        }
        lemma_functions_lack(c.methods, r);
        lemma_accessors_lack(c.getters, r);
        lemma_accessors_lack(c.setters, r);
        lemma_functions_lack(c.static_methods, r);
    }
}

proof fn lemma_idle_function(f: FunctionView, r: Rewrite)
    requires
        idle(r),
    ensures
        rewrite_function(f, r) == f,
{
    lemma_idle_params(f.params, r);
    law_idle_rewrite_keeps_stmts(f.body, r);
}

proof fn lemma_idle_functions(v: Seq<FunctionView>, r: Rewrite)
    requires
        idle(r),
    ensures
        rewrite_functions(v, r) == v,
{
    let out = rewrite_functions(v, r);
    assert forall|i: int| 0 <= i < v.len() implies out[i] == #[trigger] v[i] by {
        lemma_idle_function(v[i], r);
    }
    assert(out =~= v);
}

proof fn lemma_idle_accessors(v: Seq<(Seq<char>, FunctionView)>, r: Rewrite)
    requires
        idle(r),
    ensures
        rewrite_accessors(v, r) == v,
{
    let out = rewrite_accessors(v, r);
    assert forall|i: int| 0 <= i < v.len() implies out[i] == #[trigger] v[i] by {
        lemma_idle_function(v[i].1, r);
    }
    assert(out =~= v);
}

proof fn lemma_idle_class(c: ClassView, r: Rewrite)
    requires
        idle(r),
    ensures
        rewrite_class(c, r) == c,
{
    let out = rewrite_class(c, r);
    assert forall|i: int| 0 <= i < c.fields.len() implies out.fields[i] == #[trigger] c.fields[i] by {
        match c.fields[i].init {
            Some(e) => law_idle_rewrite_keeps_expr(e, r),
            None => {},
        }
    }
    assert(out.fields =~= c.fields);
    match c.constructor {
        Some(f) => lemma_idle_function(f, r),
        None => {},
    }
    lemma_idle_functions(c.methods, r);
    lemma_idle_accessors(c.getters, r);
    lemma_idle_accessors(c.setters, r);
    lemma_idle_functions(c.static_methods, r);
}

/// A rewrite that has nothing to replace leaves the module as it is.
pub proof fn law_idle_rewrite_keeps_module(m: ModuleView, r: Rewrite)
    requires
        idle(r),
    ensures
        rewrite_module(m, r) == m,
{
    let out = rewrite_module(m, r);
    law_idle_rewrite_keeps_stmts(m.init, r);
    lemma_idle_functions(m.functions, r);
    assert forall|i: int| 0 <= i < m.classes.len() implies out.classes[i]
        == #[trigger] m.classes[i] by {
        lemma_idle_class(m.classes[i], r);
    }
    assert(out.classes =~= m.classes);
}

// ---------------------------------------------------------------------------
// Execution
// ---------------------------------------------------------------------------

fn rewritten_function(f: &Function, p: Pass) -> (r: Function)
    ensures
        r@ == rewrite_function(f@, p@),
{
    Function {
        id: f.id,
        name: f.name.clone(),
        params: rewritten_params(&f.params, p),
        return_type: f.return_type.clone(),
        body: rewritten_stmts(&f.body, p),
        is_async: f.is_async,
        is_generator: f.is_generator,
        captures: copy_ids(&f.captures),
    }
}

fn rewritten_functions(v: &Vec<Function>, p: Pass) -> (r: Vec<Function>)
    ensures
        functions_view(r@) == rewrite_functions(functions_view(v@), p@),
{
    let mut out: Vec<Function> = Vec::new();
    let mut i: usize = 0;
    while i < v.len()
        invariant
            i <= v@.len(),
            out@.len() == i,
            forall|j: int|
                0 <= j < i ==> (#[trigger] out@[j]).view() == rewrite_function(v@[j].view(), p@),
        decreases v@.len() - i,
    {
        out.push(rewritten_function(&v[i], p));
        i += 1;
    }
    assert(functions_view(out@) =~= rewrite_functions(functions_view(v@), p@));
    out
}

fn rewritten_accessors(v: &Vec<(String, Function)>, p: Pass) -> (r: Vec<(String, Function)>)
    ensures
        accessors_view(r@) == rewrite_accessors(accessors_view(v@), p@),
{
    let mut out: Vec<(String, Function)> = Vec::new();
    let mut i: usize = 0;
    while i < v.len()
        invariant
            i <= v@.len(),
            out@.len() == i,
            forall|j: int|
                0 <= j < i ==> (#[trigger] out@[j]).0@ == v@[j].0@ && out@[j].1.view()
                    == rewrite_function(v@[j].1.view(), p@),
        decreases v@.len() - i,
    {
        out.push((v[i].0.clone(), rewritten_function(&v[i].1, p)));
        i += 1;
    }
    assert(accessors_view(out@) =~= rewrite_accessors(accessors_view(v@), p@));
    out
}

fn rewritten_fields(v: &Vec<ClassField>, p: Pass) -> (r: Vec<ClassField>)
    ensures
        class_fields_view(r@) == class_fields_view(v@).map_values(
            |f: FieldView| rewrite_field(f, p@),
        ),
{
    let mut out: Vec<ClassField> = Vec::new();
    let mut i: usize = 0;
    while i < v.len()
        invariant
            i <= v@.len(),
            out@.len() == i,
            forall|j: int|
                0 <= j < i ==> (#[trigger] out@[j]).view() == rewrite_field(v@[j].view(), p@),
        decreases v@.len() - i,
    {
        out.push(ClassField { name: v[i].name.clone(), init: rewritten_opt(&v[i].init, p) });
        i += 1;
    }
    assert(class_fields_view(out@) =~= class_fields_view(v@).map_values(
        |f: FieldView| rewrite_field(f, p@),
    ));
    out
}

fn rewritten_class(c: &Class, p: Pass) -> (r: Class)
    ensures
        r@ == rewrite_class(c@, p@),
{
    let constructor: Option<Function> = match &c.constructor {
        Some(f) => Some(rewritten_function(f, p)),
        None => None,
    };
    Class {
        name: c.name.clone(),
        native_extends: copy_opt_str(&c.native_extends),
        fields: rewritten_fields(&c.fields, p),
        constructor,
        methods: rewritten_functions(&c.methods, p),
        getters: rewritten_accessors(&c.getters, p),
        setters: rewritten_accessors(&c.setters, p),
        static_methods: rewritten_functions(&c.static_methods, p),
    }
}

fn rewritten_classes(v: &Vec<Class>, p: Pass) -> (r: Vec<Class>)
    ensures
        classes_view(r@) == classes_view(v@).map_values(|c: ClassView| rewrite_class(c, p@)),
{
    let mut out: Vec<Class> = Vec::new();
    let mut i: usize = 0;
    while i < v.len()
        invariant
            i <= v@.len(),
            out@.len() == i,
            forall|j: int|
                0 <= j < i ==> (#[trigger] out@[j]).view() == rewrite_class(v@[j].view(), p@),
        decreases v@.len() - i,
    {
        out.push(rewritten_class(&v[i], p));
        i += 1;
    }
    assert(classes_view(out@) =~= classes_view(v@).map_values(
        |c: ClassView| rewrite_class(c, p@),
    ));
    out
}

/// The module with everything in it rewritten.
pub fn rewritten_module(m: &Module, p: Pass) -> (r: Module)
    ensures
        r@ == rewrite_module(m@, p@),
{
    Module {
        name: m.name.clone(),
        classes: rewritten_classes(&m.classes, p),
        functions: rewritten_functions(&m.functions, p),
        init: rewritten_stmts(&m.init, p),
    }
}

} // verus!

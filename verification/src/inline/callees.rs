//! Which candidate a call is taken for.
//!
//! A function call finds the candidate of its id; a method call on a variable finds a
//! method that a class of the variable's type declares. Both are looked for among all
//! that can be inlined, and only there.

use crate::hir::{FuncId, LocalId};
use crate::inline::calls::noted;
use crate::inline::candidate::{inlinable, is_trivial, pure};
use crate::inline::expand::{callee_of, find_method, CalleeView, CandidatesView};
use crate::inline::meaning::distinct_params;
use crate::inline::pass::{
    func_candidates, method_candidates, methods_of, param_types, pure_only,
};
use crate::model::{ClassView, ExprView, FunctionView, ParamView, StmtView, TypeView};
use crate::walk::children;
use vstd::prelude::*;

verus! {

// ---------------------------------------------------------------------------
// Methods
// ---------------------------------------------------------------------------

/// Whether the entry is a method of the class, and of the name.
pub open spec fn is_method(entry: (Seq<char>, FunctionView), class: Seq<char>, name: Seq<char>) -> bool {
    entry.0 == class && entry.1.name == name
}

/// The method that is found for a class and a name is listed with that class, and has
/// that name; of several the last. None is found only where none is listed with both.
pub proof fn law_method_is_of_its_class(
    methods: Seq<(Seq<char>, FunctionView)>,
    class: Seq<char>,
    name: Seq<char>,
)
    ensures
        match find_method(methods, class, name) {
            Some(f) => exists|i: int|
                0 <= i < methods.len() && is_method(#[trigger] methods[i], class, name)
                    && methods[i].1 == f && forall|j: int|
                    i < j < methods.len() ==> !is_method(#[trigger] methods[j], class, name),
            None => forall|i: int|
                0 <= i < methods.len() ==> !is_method(#[trigger] methods[i], class, name),
        },
    decreases methods.len(),
{
    if methods.len() > 0 {
        let last = methods.len() - 1;
        if is_method(methods[last], class, name) {
            assert(methods.last() == methods[last]);
        } else {
            let front = methods.drop_last();
            law_method_is_of_its_class(front, class, name);
            match find_method(front, class, name) {
                Some(f) => {
                    let i = choose|i: int|
                        0 <= i < front.len() && is_method(#[trigger] front[i], class, name)
                            && front[i].1 == f && forall|j: int|
                            i < j < front.len() ==> !is_method(#[trigger] front[j], class, name);
                    assert(methods[i] == front[i]);
                    assert forall|j: int| i < j < methods.len() implies !is_method(
                        #[trigger] methods[j],
                        class,
                        name,
                    ) by {
                        if j < last {
                            assert(methods[j] == front[j]);
                        }
                    }
                },
                None => {
                    assert forall|i: int| 0 <= i < methods.len() implies !is_method(
                        #[trigger] methods[i],
                        class,
                        name,
                    ) by {
                        if i < last {
                            assert(methods[i] == front[i]);
                        }
                    }
                },
            }
        }
    }
}

/// A call of a function goes by the id of the function, and by nothing else.
pub proof fn law_function_call_goes_by_id(
    e: ExprView,
    id: FuncId,
    c: CandidatesView,
    types: Map<LocalId, Seq<char>>,
)
    requires
        e matches ExprView::Call { callee, .. } && *callee == ExprView::FuncRef(id),
    ensures
        callee_of(e, c, types) is Some <==> c.funcs.contains_key(id),
        callee_of(e, c, types) matches Some(x) ==> x == CalleeView::Function(c.funcs[id]),
{
}

/// A call `x.name(..)` is taken for a method of that name that a class of the type of
/// `x` has, on the object in `x`; it is taken for none where the type is not known, or
/// where no class of it has a candidate of the name.
pub proof fn law_method_call_goes_by_class(
    e: ExprView,
    x: LocalId,
    name: Seq<char>,
    c: CandidatesView,
    types: Map<LocalId, Seq<char>>,
)
    requires
        e matches ExprView::Call { callee, .. } && (*callee matches ExprView::PropertyGet {
            object,
            property,
        } && *object == ExprView::LocalGet(x) && property == name),
    ensures
        match callee_of(e, c, types) {
            Some(CalleeView::Method(obj, f)) => {
                &&& obj == x
                &&& types.contains_key(x)
                &&& exists|i: int|
                    0 <= i < c.methods.len() && is_method(
                        #[trigger] c.methods[i],
                        types[x],
                        name,
                    ) && c.methods[i].1 == f
            },
            Some(CalleeView::Function(_)) => false,
            None => types.contains_key(x) ==> forall|i: int|
                0 <= i < c.methods.len() ==> !is_method(#[trigger] c.methods[i], types[x], name),
        },
{
    if types.contains_key(x) {
        law_method_is_of_its_class(c.methods, types[x], name);
    }
}

/// Nothing else is taken for a call of a candidate.
pub proof fn law_nothing_else_is_called(
    e: ExprView,
    c: CandidatesView,
    types: Map<LocalId, Seq<char>>,
)
    requires
        e matches ExprView::Call { callee, .. } ==> !(*callee is FuncRef) && !(
        *callee matches ExprView::PropertyGet { object, .. } && *object is LocalGet),
    ensures
        callee_of(e, c, types) is None,
{
}

// ---------------------------------------------------------------------------
// What is listed
// ---------------------------------------------------------------------------

/// A function is a candidate under its own id exactly where one of that id can be
/// inlined; of several the last.
#[verifier::rlimit(40)]
pub proof fn law_function_candidates(v: Seq<FunctionView>, id: FuncId)
    ensures
        func_candidates(v).contains_key(id) ==> exists|i: int|
            0 <= i < v.len() && inlinable(#[trigger] v[i]) && v[i].id == id && v[i]
                == func_candidates(v)[id] && forall|j: int|
                i < j < v.len() && (#[trigger] v[j]).id == id ==> !inlinable(v[j]),
        !func_candidates(v).contains_key(id) ==> forall|i: int|
            0 <= i < v.len() && (#[trigger] v[i]).id == id ==> !inlinable(v[i]),
    decreases v.len(),
{
    if v.len() > 0 {
        let last = v.len() - 1;
        let front = v.drop_last();
        assert(v.last() == v[last]);
        if inlinable(v[last]) && v[last].id == id {
            assert(inlinable(v[last]) && v[last] == func_candidates(v)[id]);
        } else {
            law_function_candidates(front, id);
            assert forall|i: int| 0 <= i < front.len() implies #[trigger] v[i] == front[i] by {}
            if func_candidates(v).contains_key(id) {
                let i = choose|i: int|
                    0 <= i < front.len() && inlinable(#[trigger] front[i]) && front[i].id == id
                        && front[i] == func_candidates(front)[id] && forall|j: int|
                        i < j < front.len() && (#[trigger] front[j]).id == id ==> !inlinable(
                            front[j],
                        );
                assert(v[i] == front[i]);
                assert forall|j: int|
                    i < j < v.len() && (#[trigger] v[j]).id == id implies !inlinable(v[j]) by {
                    if j < last {
                        assert(v[j] == front[j]);
                    }
                }
                assert(inlinable(v[i]) && v[i].id == id && v[i] == func_candidates(v)[id]);
            }
        }
    }
}

/// At the top of a module only the pure ones of the candidates are used, unchanged.
pub proof fn law_pure_candidates(m: Map<FuncId, FunctionView>, id: FuncId)
    ensures
        pure_only(m).contains_key(id) <==> m.contains_key(id) && pure(m[id]),
        pure_only(m).contains_key(id) ==> pure_only(m)[id] == m[id],
{
}

/// Whether the class declares the method, and it may be inlined.
pub open spec fn declares(c: ClassView, j: int) -> bool {
    0 <= j < c.methods.len() && inlinable(c.methods[j]) && c.native_extends is None
}

proof fn lemma_methods_of(class: Seq<char>, v: Seq<FunctionView>)
    ensures
        forall|i: int|
            0 <= i < methods_of(class, v).len() ==> (#[trigger] methods_of(class, v)[i]).0
                == class && exists|j: int|
                0 <= j < v.len() && inlinable(#[trigger] v[j]) && v[j]
                    == methods_of(class, v)[i].1,
        forall|j: int|
            0 <= j < v.len() && inlinable(#[trigger] v[j]) ==> methods_of(class, v).contains(
                (class, v[j]),
            ),
    decreases v.len(),
{
    if v.len() > 0 {
        let front = v.drop_last();
        let last = v.len() - 1;
        lemma_methods_of(class, front);
        let a = methods_of(class, front);
        let all = methods_of(class, v);
        assert(v[last] == v.last());
        assert forall|i: int| 0 <= i < all.len() implies (#[trigger] all[i]).0 == class
            && exists|j: int| 0 <= j < v.len() && inlinable(#[trigger] v[j]) && v[j] == all[i].1 by {
            if i < a.len() {
                assert(all[i] == a[i]);
                let j = choose|j: int|
                    0 <= j < front.len() && inlinable(#[trigger] front[j]) && front[j] == a[i].1;
                assert(v[j] == front[j]);
                assert(inlinable(v[j]));
            } else {
                assert(inlinable(v[last]));
            }
        }
        assert forall|j: int| 0 <= j < v.len() && inlinable(#[trigger] v[j]) implies all.contains(
            (class, v[j]),
        ) by {
            if j < last {
                assert(front[j] == v[j]);
                assert(a.contains((class, front[j])));
                let i = choose|i: int| 0 <= i < a.len() && a[i] == (class, front[j]);
                assert(all[i] == a[i]);
            } else {
                assert(all[all.len() - 1] == (class, v[j]));
            }
        }
    }
}

/// Whether the method is one that a class of the name declares, and it may be inlined.
pub open spec fn is_declared(v: Seq<ClassView>, entry: (Seq<char>, FunctionView)) -> bool {
    exists|k: int, j: int|
        0 <= k < v.len() && #[trigger] declares(v[k], j) && v[k].name == entry.0 && v[k].methods[j]
            == entry.1
}

/// Every listed method is one that a class of the listed name declares, and that can be
/// inlined; and every such method of a class that extends no built-in one is listed.
#[verifier::rlimit(40)]
pub proof fn law_method_candidates(v: Seq<ClassView>)
    ensures
        forall|i: int|
            0 <= i < method_candidates(v).len() ==> is_declared(
                v,
                #[trigger] method_candidates(v)[i],
            ),
        forall|k: int, j: int|
            0 <= k < v.len() && #[trigger] declares(v[k], j) ==> method_candidates(v).contains(
                (v[k].name, v[k].methods[j]),
            ),
    decreases v.len(),
{
    if v.len() > 0 {
        let front = v.drop_last();
        let last = v.len() - 1;
        let c = v[last];
        assert(v.last() == c);
        law_method_candidates(front);
        lemma_methods_of(c.name, c.methods);
        let a = method_candidates(front);
        let own = methods_of(c.name, c.methods);
        let all = method_candidates(v);
        assert forall|i: int| 0 <= i < all.len() implies is_declared(v, #[trigger] all[i]) by {
            if i < a.len() {
                assert(all[i] == a[i]);
                assert(is_declared(front, a[i]));
                let (k, j) = choose|k: int, j: int|
                    0 <= k < front.len() && #[trigger] declares(front[k], j) && front[k].name
                        == a[i].0 && front[k].methods[j] == a[i].1;
                assert(v[k] == front[k]);
                assert(declares(v[k], j));
            } else {
                assert(all[i] == own[i - a.len()]);
                let j = choose|j: int|
                    0 <= j < c.methods.len() && inlinable(#[trigger] c.methods[j]) && c.methods[j]
                        == own[i - a.len()].1;
                assert(declares(v[last], j));
            }
        }
        assert forall|k: int, j: int|
            0 <= k < v.len() && #[trigger] declares(v[k], j) implies all.contains(
            (v[k].name, v[k].methods[j]),
        ) by {
            if k < last {
                assert(v[k] == front[k]);
                assert(declares(front[k], j));
                let i = choose|i: int|
                    0 <= i < a.len() && a[i] == (front[k].name, front[k].methods[j]);
                assert(all[i] == a[i]);
            } else {
                assert(inlinable(c.methods[j]));
                let i = choose|i: int| 0 <= i < own.len() && own[i] == (c.name, c.methods[j]);
                assert(all[a.len() + i] == own[i]);
            }
        }
    }
}

/// What is inlined for `x.name(..)` is the body of a method that a class with the name
/// of the type of `x` declares.
pub proof fn law_inlined_method_is_declared_by_the_class(
    v: Seq<ClassView>,
    class: Seq<char>,
    name: Seq<char>,
)
    ensures
        match find_method(method_candidates(v), class, name) {
            Some(f) => exists|k: int, j: int|
                0 <= k < v.len() && #[trigger] declares(v[k], j) && v[k].name == class
                    && v[k].methods[j] == f && f.name == name,
            None => forall|k: int, j: int|
                0 <= k < v.len() && #[trigger] declares(v[k], j) && v[k].name == class
                    ==> v[k].methods[j].name != name,
        },
{
    let all = method_candidates(v);
    law_method_is_of_its_class(all, class, name);
    law_method_candidates(v);
    match find_method(all, class, name) {
        Some(f) => {
            let i = choose|i: int|
                0 <= i < all.len() && is_method(#[trigger] all[i], class, name) && all[i].1 == f;
            assert(is_declared(v, all[i]));
            let (k, j) = choose|k: int, j: int|
                0 <= k < v.len() && #[trigger] declares(v[k], j) && v[k].name == all[i].0
                    && v[k].methods[j] == all[i].1;
            assert(declares(v[k], j) && v[k].name == class && v[k].methods[j] == f);
        },
        None => {
            assert forall|k: int, j: int|
                0 <= k < v.len() && #[trigger] declares(v[k], j) && v[k].name
                    == class implies v[k].methods[j].name != name by {
                let entry = (v[k].name, v[k].methods[j]);
                assert(all.contains(entry));
                let i = choose|i: int| 0 <= i < all.len() && all[i] == entry;
                assert(!is_method(all[i], class, name));
            }
        },
    }
}

// ---------------------------------------------------------------------------
// Known classes
// ---------------------------------------------------------------------------

/// A let makes the class of its variable known: that of the object that it creates, or
/// else the one that it is declared with. Nothing else becomes known, and nothing that
/// was known of other variables changes.
pub proof fn law_lets_tell_the_class(
    s: StmtView,
    types: Map<LocalId, Seq<char>>,
    x: LocalId,
)
    ensures
        s matches StmtView::Let { id, init: Some(ExprView::New { class_name, .. }), .. }
            ==> noted(s, types).contains_key(id) && noted(s, types)[id] == class_name,
        s matches StmtView::Let { id, ty: TypeView::Named(class), init, .. } ==> !(init matches Some(
            ExprView::New { .. },
        )) ==> noted(s, types).contains_key(id) && noted(s, types)[id] == class,
        s matches StmtView::Let { id, ty, init, .. } ==> x != id || (!(ty is Named) && !(
        init matches Some(ExprView::New { .. }))) ==> noted(s, types).contains_key(x)
            == types.contains_key(x) && (types.contains_key(x) ==> noted(s, types)[x]
            == types[x]),
        !(s is Let) ==> noted(s, types) == types,
{
}

/// In a function the class of a parameter is known exactly where it is declared.
pub proof fn law_params_tell_the_class(params: Seq<ParamView>, x: LocalId)
    requires
        distinct_params(params),
    ensures
        forall|i: int|
            0 <= i < params.len() ==> match (#[trigger] params[i]).ty {
                TypeView::Named(class) => param_types(params).contains_key(params[i].id)
                    && param_types(params)[params[i].id] == class,
                _ => !param_types(params).contains_key(params[i].id),
            },
        param_types(params).contains_key(x) ==> exists|i: int|
            0 <= i < params.len() && (#[trigger] params[i]).id == x,
    decreases params.len(),
{
    if params.len() > 0 {
        let front = params.drop_last();
        let last = params.len() - 1;
        assert forall|i: int| 0 <= i < front.len() implies #[trigger] front[i] == params[i] by {}
        assert(distinct_params(front));
        law_params_tell_the_class(front, x);
        law_params_tell_the_class(front, params[last].id);
        assert(params.last() == params[last]);
        assert forall|i: int| 0 <= i < params.len() implies match (#[trigger] params[i]).ty {
            TypeView::Named(class) => param_types(params).contains_key(params[i].id)
                && param_types(params)[params[i].id] == class,
            _ => !param_types(params).contains_key(params[i].id),
        } by {
            if i < last {
                assert(front[i] == params[i]);
                assert(params[i].id != params[last].id);
            }
        }
        if param_types(params).contains_key(x) {
            if x == params[last].id {
            } else {
                let i = choose|i: int| 0 <= i < front.len() && (#[trigger] front[i]).id == x;
                assert(params[i].id == x);
            }
        }
    }
}

/// What can be duplicated freely: a literal or a variable. Nothing that has parts, and
/// neither `this` nor a function.
pub proof fn law_trivial(e: ExprView)
    ensures
        is_trivial(e) <==> match e {
            ExprView::LocalGet(_) | ExprView::GlobalGet(_) => true,
            ExprView::Number(_) | ExprView::Integer(_) | ExprView::Bool(_) => true,
            ExprView::String(_) | ExprView::WtfString(_) => true,
            ExprView::Null | ExprView::Undefined => true,
            _ => false,
        },
        is_trivial(e) ==> children(e).len() == 0,
{
}

} // verus!

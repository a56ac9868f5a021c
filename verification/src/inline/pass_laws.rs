//! Which functions and methods are inlined, where calls are looked for, and what the pass
//! does with a module as a whole.

use crate::hir::{FuncId, IntrinsicOp, LocalId};
use crate::inline::callees::{is_method, law_method_is_of_its_class};
use crate::inline::calls::{inline_first, inline_stmt, noted, searched};
use crate::inline::candidate::{inlinable, is_trivial, plain_stmt, pure, simple_flow, simple_stmt};
use crate::inline::expand::{
    args_of, argument_lets, bind_fresh, call_map, callee_of, full_call, lemma_bind_fresh_grows,
    method_expr, pairs, void_stmts, CalleeView, CandidatesView,
};
use crate::inline::imul::imul_polyfill;
use crate::inline::meaning::distinct_params;
use crate::inline::meaning_lets::argument_id;
use crate::inline::module_ids::{
    accessors_name, class_names, field_names, function_names, lemma_module_max_exists, module_max,
    module_names,
};
use crate::inline::pass::{
    first_free, imul_ids, imul_in_module, inline_in, inline_in_functions, inline_in_methods,
    inline_init, pure_only,
};
use crate::inline::scan::{
    cases_have, expr_has, lemma_cases_lack, lemma_expr_lacks, lemma_stmt_has, lemma_stmts_lack,
    opt_expr_has, own_ids, param_ids, stmt_has, stmts_have, NodeTest,
};
use crate::model::{CaseView, ExprView, FunctionView, ModuleView, ParamView, StmtView};
use crate::rewrite::{rewrite_stmts, Rewrite};
use crate::walk::{children, lemma_children_smaller, param_defaults};
use vstd::prelude::*;

verus! {

// ---------------------------------------------------------------------------
// Candidates
// ---------------------------------------------------------------------------

/// A function that is inlined elsewhere is not async, captures nothing, takes no rest
/// parameter, has at most ten statements, and neither calls its parent class nor holds a
/// closure over its parameters; and every function of simple flow that is so is one.
pub proof fn law_inlinable(f: FunctionView)
    ensures
        inlinable(f) <==> {
            &&& !f.is_async
            &&& f.captures.len() == 0
            &&& forall|i: int| 0 <= i < f.params.len() ==> !(#[trigger] f.params[i]).is_rest
            &&& f.body.len() <= 10
            &&& forall|i: int| 0 <= i < f.body.len() ==> simple_stmt(#[trigger] f.body[i])
            &&& !stmts_have(f.body, NodeTest::CallsSuper)
            &&& !stmts_have(f.body, NodeTest::Captures(param_ids(f.params)))
        },
{
}

/// Simple flow: lets, expressions and returns, and branches of nothing else. Loops,
/// switches, jumps and exceptions are not simple.
pub proof fn law_simple_flow(s: StmtView)
    ensures
        s is Let || s is Expr || s is Return ==> simple_stmt(s),
        s matches StmtView::If { then_branch, else_branch, .. } ==> (simple_stmt(s) <==> (
        forall|i: int| 0 <= i < then_branch.len() ==> simple_stmt(#[trigger] then_branch[i])) && (
        else_branch matches Some(b) ==> forall|i: int|
            0 <= i < b.len() ==> simple_stmt(#[trigger] b[i]))),
        s is While || s is DoWhile || s is For || s is Labeled || s is Try || s is Switch
            || s is Throw || s is Break || s is Continue || s is LabeledBreak
            || s is LabeledContinue ==> !simple_stmt(s),
{
    match s {
        StmtView::If { then_branch, else_branch, .. } => {
            assert(simple_flow(then_branch) <==> forall|i: int|
                0 <= i < then_branch.len() ==> simple_stmt(#[trigger] then_branch[i]));
            match else_branch {
                Some(b) => {
                    assert(simple_flow(b) <==> forall|i: int|
                        0 <= i < b.len() ==> simple_stmt(#[trigger] b[i]));
                },
                None => {},
            }
        },
        _ => {},
    }
}

/// A pure function names no variable but its parameters and what it binds itself, and
/// does nothing that reaches outside; it has no switch, no try and no label.
pub proof fn law_pure_functions_keep_to_themselves(f: FunctionView, x: LocalId)
    requires
        pure(f),
    ensures
        stmts_have(f.body, NodeTest::Names(x)) ==> param_ids(f.params).contains(x) || stmts_have(
            f.body,
            NodeTest::Binds(x),
        ),
        forall|i: int| 0 <= i < f.body.len() ==> plain_stmt(#[trigger] f.body[i]),
{
    let known = own_ids(param_ids(f.params), f.body);
    if !known.contains(x) {
        lemma_names_are_known(f.body, known, x);
    }
}

proof fn lemma_names_are_known(v: Seq<StmtView>, known: Set<LocalId>, x: LocalId)
    requires
        !stmts_have(v, NodeTest::Outside(known)),
        !stmts_have(v, NodeTest::Binds(x)),
        !known.contains(x),
    ensures
        !stmts_have(v, NodeTest::Names(x)),
    decreases v, 0nat,
{
    lemma_stmts_lack(v, NodeTest::Outside(known));
    lemma_stmts_lack(v, NodeTest::Binds(x));
    lemma_stmts_lack(v, NodeTest::Names(x));
    assert forall|i: int| 0 <= i < v.len() implies !stmt_has(#[trigger] v[i], NodeTest::Names(x)) by {
        lemma_stmt_names_are_known(v[i], known, x);
    }
}

proof fn lemma_expr_names_are_known(e: ExprView, known: Set<LocalId>, x: LocalId)
    requires
        !expr_has(e, NodeTest::Outside(known)),
        !expr_has(e, NodeTest::Binds(x)),
        !known.contains(x),
    ensures
        !expr_has(e, NodeTest::Names(x)),
    decreases e, 0nat,
{
    lemma_expr_lacks(e, NodeTest::Outside(known));
    lemma_expr_lacks(e, NodeTest::Binds(x));
    lemma_expr_lacks(e, NodeTest::Names(x));
    assert forall|i: int| 0 <= i < children(e).len() implies !expr_has(
        #[trigger] children(e)[i],
        NodeTest::Names(x),
    ) by {
        lemma_children_smaller(e, i);
        lemma_expr_names_are_known(children(e)[i], known, x);
    }
    match e {
        ExprView::Closure { params, body, captures, mutable_captures, .. } => {
            lemma_names_are_known(body, known, x);
            assert(!captures.contains(x)) by {
                if captures.contains(x) {
                    let i = choose|i: int| 0 <= i < captures.len() && captures[i] == x;
                    assert(known.contains(captures[i]));
                }
            }
            assert(!mutable_captures.contains(x)) by {
                if mutable_captures.contains(x) {
                    let i = choose|i: int|
                        0 <= i < mutable_captures.len() && mutable_captures[i] == x;
                    assert(known.contains(mutable_captures[i]));
                }
            }
        },
        _ => {},
    }
}

proof fn lemma_opt_names_are_known(o: Option<ExprView>, known: Set<LocalId>, x: LocalId)
    requires
        o matches Some(e) ==> !expr_has(e, NodeTest::Outside(known)) && !expr_has(
            e,
            NodeTest::Binds(x),
        ),
        !known.contains(x),
    ensures
        o matches Some(e) ==> !expr_has(e, NodeTest::Names(x)),
    decreases o, 0nat,
{
    match o {
        Some(e) => lemma_expr_names_are_known(e, known, x),
        None => {},
    }
}

#[verifier::rlimit(40)]
proof fn lemma_stmt_names_are_known(s: StmtView, known: Set<LocalId>, x: LocalId)
    requires
        !stmt_has(s, NodeTest::Outside(known)),
        !stmt_has(s, NodeTest::Binds(x)),
        !known.contains(x),
    ensures
        !stmt_has(s, NodeTest::Names(x)),
    decreases s, 0nat,
{
    lemma_stmt_has(s, NodeTest::Outside(known));
    lemma_stmt_has(s, NodeTest::Binds(x));
    lemma_stmt_has(s, NodeTest::Names(x));
    match s {
        StmtView::Let { init, .. } => lemma_opt_names_are_known(init, known, x),
        StmtView::Expr(e) => lemma_expr_names_are_known(e, known, x),
        StmtView::Return(o) => lemma_opt_names_are_known(o, known, x),
        StmtView::Throw(e) => lemma_expr_names_are_known(e, known, x),
        StmtView::If { condition, then_branch, else_branch } => {
            lemma_expr_names_are_known(condition, known, x);
            lemma_names_are_known(then_branch, known, x);
            match else_branch {
                Some(b) => lemma_names_are_known(b, known, x),
                None => {},
            }
        },
        StmtView::While { condition, body } => {
            lemma_expr_names_are_known(condition, known, x);
            lemma_names_are_known(body, known, x);
        },
        StmtView::DoWhile { body, condition } => {
            lemma_expr_names_are_known(condition, known, x);
            lemma_names_are_known(body, known, x);
        },
        StmtView::For { init, condition, update, body } => {
            match init {
                Some(i) => lemma_stmt_names_are_known(*i, known, x),
                None => {},
            }
            lemma_opt_names_are_known(condition, known, x);
            lemma_opt_names_are_known(update, known, x);
            lemma_names_are_known(body, known, x);
        },
        StmtView::Labeled { body, .. } => lemma_stmt_names_are_known(*body, known, x),
        StmtView::Try { body, catch, finally } => {
            lemma_names_are_known(body, known, x);
            match catch {
                Some(c) => lemma_names_are_known(c.body, known, x),
                None => {},
            }
            match finally {
                Some(b) => lemma_names_are_known(b, known, x),
                None => {},
            }
        },
        StmtView::Switch { discriminant, cases } => {
            lemma_expr_names_are_known(discriminant, known, x);
            lemma_case_names_are_known(cases, known, x);
        },
        _ => {},
    }
}

proof fn lemma_case_names_are_known(v: Seq<CaseView>, known: Set<LocalId>, x: LocalId)
    requires
        !cases_have(v, NodeTest::Outside(known)),
        !cases_have(v, NodeTest::Binds(x)),
        !known.contains(x),
    ensures
        !cases_have(v, NodeTest::Names(x)),
    decreases v, 0nat,
{
    lemma_cases_lack(v, NodeTest::Outside(known));
    lemma_cases_lack(v, NodeTest::Binds(x));
    lemma_cases_lack(v, NodeTest::Names(x));
    assert forall|i: int| 0 <= i < v.len() implies !opt_expr_has(
        (#[trigger] v[i]).test,
        NodeTest::Names(x),
    ) && !stmts_have(v[i].body, NodeTest::Names(x)) by {
        lemma_opt_names_are_known(v[i].test, known, x);
        lemma_names_are_known(v[i].body, known, x);
    }
}

// ---------------------------------------------------------------------------
// Where calls are looked for
// ---------------------------------------------------------------------------

/// Calls are looked for in the parts of every expression, but for constructor calls,
/// assignments of globals, closures, array methods, and most built-in operations.
pub proof fn law_calls_are_looked_for(e: ExprView)
    ensures
        children(e).len() > 0 && !(e is New || e is NewDynamic || e is SuperCall
            || e is SuperMethodCall || e is GlobalSet || e is Closure || e is ArrayMap
            || e is LocalCall || e is Intrinsic) ==> searched(e),
        e matches ExprView::Intrinsic { op, .. } ==> (searched(e) <==> op
            == IntrinsicOp::Uint8ArrayGet || op == IntrinsicOp::Uint8ArraySet || op
            == IntrinsicOp::Uint8ArrayLength || op == IntrinsicOp::Uint8ArrayNew),
        e is New || e is NewDynamic || e is SuperCall || e is SuperMethodCall || e is GlobalSet
            || e is Closure || e is ArrayMap || e is LocalCall ==> !searched(e),
{
}

// ---------------------------------------------------------------------------
// Calls with their arguments
// ---------------------------------------------------------------------------

/// Whether the parameter stands for its argument: for the argument itself where that can
/// be duplicated freely, and otherwise for a constant that one of the lets, which bind the
/// ids from `n` on in order, gives the value of the argument, under the name and with the
/// type of the parameter.
pub open spec fn is_evaluated(
    p: ParamView,
    arg: ExprView,
    m: Map<LocalId, ExprView>,
    lets: Seq<StmtView>,
    n: nat,
    id: LocalId,
) -> bool {
    &&& m.contains_key(p.id)
    &&& if is_trivial(arg) {
        m[p.id] == arg
    } else {
        &&& m[p.id] == ExprView::LocalGet(id)
        &&& n <= id < n + lets.len()
        &&& lets[id - n] == (StmtView::Let {
            id,
            name: p.name,
            ty: p.ty,
            mutable: false,
            init: Some(arg),
        })
    }
}

/// Where a body keeps its variables, each argument is evaluated once, in order, into a
/// constant of its own that has the name and the type of the parameter, and the parameter
/// stands for that constant. What can be duplicated freely stands for itself.
#[verifier::rlimit(40)]
pub proof fn law_arguments_are_evaluated_in_order(
    params: Seq<ParamView>,
    args: Seq<ExprView>,
    k: nat,
    n: nat,
)
    requires
        distinct_params(params),
        k <= params.len(),
        k <= args.len(),
        bind_fresh(params, args, k, n).1 <= LocalId::MAX,
    ensures
        bind_fresh(params, args, k, n).1 == n + argument_lets(params, args, k, n).len(),
        forall|i: int|
            0 <= i < k ==> is_evaluated(
                #[trigger] params[i],
                args[i],
                bind_fresh(params, args, k, n).0,
                argument_lets(params, args, k, n),
                n,
                argument_id(params, args, i, n),
            ),
    decreases k,
{
    if k > 0 {
        let j = (k - 1) as nat;
        lemma_bind_fresh_grows(params, args, j, k, n);
        law_arguments_are_evaluated_in_order(params, args, j, n);
        let (m0, n1) = bind_fresh(params, args, j, n);
        let (m, next) = bind_fresh(params, args, k, n);
        let lets = argument_lets(params, args, k, n);
        let front = argument_lets(params, args, j, n);
        let p = params[j as int];
        let id = argument_id(params, args, j as int, n);
        assert(is_trivial(args[j as int]) ==> lets == front && next == n1);
        assert(!is_trivial(args[j as int]) ==> id == n1 && lets.len() == front.len() + 1
            && lets.drop_last() =~= front && lets.last() == (StmtView::Let {
            id,
            name: p.name,
            ty: p.ty,
            mutable: false,
            init: Some(args[j as int]),
        }));
        assert forall|i: int| 0 <= i < k implies is_evaluated(
            #[trigger] params[i],
            args[i],
            m,
            lets,
            n,
            argument_id(params, args, i, n),
        ) by {
            if i < j {
                let x = argument_id(params, args, i, n);
                assert(is_evaluated(params[i], args[i], m0, front, n, x));
                assert(params[i].id != p.id);
                assert(m.contains_key(params[i].id) && m[params[i].id] == m0[params[i].id]);
                if !is_trivial(args[i]) && !is_trivial(args[j as int]) {
                    assert(lets[x - n] == lets.drop_last()[x - n]);
                }
            } else if !is_trivial(args[i]) {
                assert(lets.last() == lets[front.len() as int]);
                assert(id - n == front.len());
            }
        }
    }
}

/// A method call that is a statement of its own is what the call of a function with the
/// same body is, with the receiver in place of `this` in the body, and only there.
pub proof fn law_method_call_is_a_call_on_the_receiver(
    e: ExprView,
    obj: LocalId,
    f: FunctionView,
    c: CandidatesView,
    types: Map<LocalId, Seq<char>>,
    n: nat,
)
    requires
        callee_of(e, c, types) == Some(CalleeView::Method(obj, f)),
    ensures
        full_call(e, c, types, n) matches Some((out, next)) && {
            let args = args_of(e);
            let lets = argument_lets(f.params, args, pairs(f.params, args), n);
            let (m, n1) = call_map(f, args, n);
            &&& next == n1
            &&& out == lets + rewrite_stmts(
                rewrite_stmts(f.body, Rewrite::Locals(m)),
                Rewrite::This(obj),
            )
        },
{
}

/// A method that returns nothing runs its expressions in order, one statement for each.
pub proof fn law_void_method_runs_in_order(
    v: Seq<StmtView>,
    e: ExprView,
    s: StmtView,
    m: Map<LocalId, ExprView>,
    obj: LocalId,
)
    ensures
        void_stmts(Seq::empty(), m, obj) == Some(Seq::<StmtView>::empty()),
        void_stmts(v, m, obj) matches Some(front) ==> void_stmts(v.push(StmtView::Expr(e)), m, obj)
            == Some(front.push(StmtView::Expr(method_expr(e, m, obj)))),
        void_stmts(v.push(StmtView::Return(None)), m, obj) == void_stmts(v, m, obj),
        void_stmts(v, m, obj) is None ==> void_stmts(v.push(s), m, obj) is None,
        !(s is Expr) && s != StmtView::Return(None) ==> void_stmts(v.push(s), m, obj) is None,
{
    assert(v.push(s).drop_last() =~= v);
    assert(v.push(StmtView::Expr(e)).drop_last() =~= v);
    assert(v.push(StmtView::Return(None)).drop_last() =~= v);
}

// ---------------------------------------------------------------------------
// Known classes along a list
// ---------------------------------------------------------------------------

/// The classes that are known after the statements, one after the other.
pub open spec fn noted_all(v: Seq<StmtView>, types: Map<LocalId, Seq<char>>) -> Map<
    LocalId,
    Seq<char>,
>
    decreases v.len(),
{
    if v.len() == 0 {
        types
    } else {
        noted(v.last(), noted_all(v.drop_last(), types))
    }
}

/// What lets tell of classes is known in the statements behind them.
pub proof fn law_classes_are_known_from_then_on(
    v: Seq<StmtView>,
    k: nat,
    c: CandidatesView,
    types: Map<LocalId, Seq<char>>,
    n: nat,
    depth: nat,
)
    requires
        k <= v.len(),
        forall|i: int|
            0 <= i < v.len() ==> (#[trigger] v[i]) is Let || v[i] is Return || v[i] is Throw
                || v[i] is Expr,
    ensures
        inline_first(v, k, c, types, n, depth) matches Some(run) ==> run.types == noted_all(
            v.take(k as int),
            types,
        ),
    decreases k,
{
    if k == 0 {
        assert(v.take(0) =~= Seq::empty());
    } else if inline_first(v, k, c, types, n, depth) is Some {
        let j = (k - 1) as nat;
        law_classes_are_known_from_then_on(v, j, c, types, n, depth);
        assert(v.take(k as int).drop_last() =~= v.take(j as int));
        assert(v.take(k as int).last() == v[j as int]);
        let front = inline_first(v, j, c, types, n, depth)->0;
        let one = inline_stmt(v[j as int], c, front.types, front.next, depth)->0;
        assert(v[j as int] is Let || v[j as int] is Return || v[j as int] is Throw
            || v[j as int] is Expr);
        assert(one.types == noted(v[j as int], front.types));
    }
}

// ---------------------------------------------------------------------------
// Modules
// ---------------------------------------------------------------------------

/// At the top of a module functions that are not pure are not inlined: the statements
/// come out the same whichever of them there are.
pub proof fn law_init_takes_pure_functions_only(
    m: ModuleView,
    a: CandidatesView,
    b: CandidatesView,
    depth: nat,
)
    requires
        a.methods == b.methods,
        forall|id: FuncId|
            (#[trigger] a.funcs.contains_key(id) && pure(a.funcs[id])) == (b.funcs.contains_key(id)
                && pure(b.funcs[id])),
        forall|id: FuncId|
            #[trigger] a.funcs.contains_key(id) && pure(a.funcs[id]) ==> a.funcs[id] == b.funcs[id],
    ensures
        inline_init(m, a, depth) == inline_init(m, b, depth),
{
    assert(pure_only(a.funcs) =~= pure_only(b.funcs));
}

/// Functions are gone through in order. One that is inlined elsewhere stays as it is;
/// every other gets its calls inlined, with the ids that those before it have left.
pub proof fn law_functions_in_order(
    v: Seq<FunctionView>,
    k: nat,
    i: nat,
    c: CandidatesView,
    n: nat,
    depth: nat,
)
    requires
        i < k <= v.len(),
        inline_in_functions(v, k, c, n, depth) is Some,
    ensures
        (inline_in_functions(v, k, c, n, depth)->0).0.len() == k,
        inline_in_functions(v, i, c, n, depth) matches Some((front, n1)) && {
            let out = (inline_in_functions(v, k, c, n, depth)->0).0[i as int];
            if c.funcs.contains_key(v[i as int].id) {
                out == v[i as int]
            } else {
                inline_in(v[i as int], c, n1, depth) matches Some((f, _)) && out == f
            }
        },
    decreases k,
{
    let j = (k - 1) as nat;
    if i < j {
        law_functions_in_order(v, j, i, c, n, depth);
    } else if j > 0 {
        law_functions_in_order(v, j, (j - 1) as nat, c, n, depth);
    }
}

/// Methods are gone through in order. One that is inlined elsewhere, under the name of its
/// class, stays as it is; every other gets its calls inlined.
pub proof fn law_methods_in_order(
    class: Seq<char>,
    v: Seq<FunctionView>,
    k: nat,
    i: nat,
    c: CandidatesView,
    n: nat,
    depth: nat,
)
    requires
        i < k <= v.len(),
        inline_in_methods(class, v, k, c, n, depth) is Some,
    ensures
        (inline_in_methods(class, v, k, c, n, depth)->0).0.len() == k,
        inline_in_methods(class, v, i, c, n, depth) matches Some((front, n1)) && {
            let out = (inline_in_methods(class, v, k, c, n, depth)->0).0[i as int];
            if exists|j: int|
                0 <= j < c.methods.len() && is_method(
                    #[trigger] c.methods[j],
                    class,
                    v[i as int].name,
                ) {
                out == v[i as int]
            } else {
                inline_in(v[i as int], c, n1, depth) matches Some((f, _)) && out == f
            }
        },
    decreases k,
{
    let j = (k - 1) as nat;
    if i < j {
        law_methods_in_order(class, v, j, i, c, n, depth);
    } else {
        law_method_is_of_its_class(c.methods, class, v[i as int].name);
        if j > 0 {
            law_methods_in_order(class, v, j, (j - 1) as nat, c, n, depth);
        }
    }
}

/// No part of a module is left out where its ids are counted: init statements, functions,
/// and in classes the initial values of fields, the constructor, methods, static ones
/// too, and accessors; of a function its parameters, their defaults, its captures and its
/// body.
#[verifier::rlimit(40)]
pub proof fn law_every_name_counts(m: ModuleView, x: LocalId, i: int, j: int)
    ensures
        stmts_have(m.init, NodeTest::Names(x)) ==> x <= module_max(m),
        0 <= i < m.functions.len() && function_names(m.functions[i], x) ==> x <= module_max(m),
        0 <= i < m.classes.len() ==> {
            let c = m.classes[i];
            &&& c.constructor matches Some(f) ==> function_names(f, x) ==> x <= module_max(m)
            &&& 0 <= j < c.methods.len() && function_names(c.methods[j], x) ==> x <= module_max(m)
            &&& 0 <= j < c.getters.len() && function_names(c.getters[j].1, x) ==> x <= module_max(m)
            &&& 0 <= j < c.setters.len() && function_names(c.setters[j].1, x) ==> x <= module_max(m)
            &&& 0 <= j < c.static_methods.len() && function_names(c.static_methods[j], x)
                ==> x <= module_max(m)
            &&& 0 <= j < c.fields.len() && (c.fields[j].init matches Some(e) && expr_has(
                e,
                NodeTest::Names(x),
            )) ==> x <= module_max(m)
        },
{
    lemma_module_max_exists(m);
    if 0 <= i < m.classes.len() {
        let c = m.classes[i];
        if class_names(c, x) {
            assert(module_names(m, x));
        }
        if 0 <= j < c.fields.len() && (c.fields[j].init matches Some(e) && expr_has(
            e,
            NodeTest::Names(x),
        )) {
            assert(field_names(c.fields[j], x));
        }
        if 0 <= j < c.getters.len() && function_names(c.getters[j].1, x) {
            assert(accessors_name(c.getters, x));
        }
        if 0 <= j < c.setters.len() && function_names(c.setters[j].1, x) {
            assert(accessors_name(c.setters, x));
        }
    }
    if module_names(m, x) {
    }
}

/// What a function names: its parameters, their defaults, its captures and its body.
pub proof fn law_function_names_all_its_parts(f: FunctionView, x: LocalId, i: int)
    ensures
        0 <= i < f.params.len() && f.params[i].id == x ==> function_names(f, x),
        0 <= i < param_defaults(f.params).len() && expr_has(
            param_defaults(f.params)[i],
            NodeTest::Names(x),
        ) ==> function_names(f, x),
        f.captures.contains(x) ==> function_names(f, x),
        stmts_have(f.body, NodeTest::Names(x)) ==> function_names(f, x),
{
    if 0 <= i < f.params.len() && f.params[i].id == x {
        assert(param_ids(f.params)[i] == x);
    }
}

/// The first free id is above all that the module names, before and after its init
/// statements were inlined.
pub proof fn law_first_free_is_above_all(before: ModuleView, after: ModuleView, x: LocalId)
    ensures
        module_names(before, x) || module_names(after, x) ==> x < first_free(before, after),
        first_free(before, after) <= module_max(before) + 1 || first_free(before, after)
            <= module_max(after) + 1,
{
    lemma_module_max_exists(before);
    lemma_module_max_exists(after);
}

// ---------------------------------------------------------------------------
// Multiplications
// ---------------------------------------------------------------------------

/// The functions whose calls become multiplications are those that spell one out, by their
/// ids. They stay as they are themselves; every other function, and every function of a
/// class, gets its body rewritten, and keeps everything else.
pub proof fn law_multiplications_in_module(m: ModuleView, i: int, j: int)
    ensures
        ({
            let ids = imul_ids(m.functions);
            let out = imul_in_module(m, ids);
            let r = Rewrite::Imul(ids);
            &&& 0 <= i < m.functions.len() && imul_polyfill(m.functions[i]) ==> ids.contains(
                m.functions[i].id,
            ) && out.functions[i] == m.functions[i]
            &&& (forall|k: int|
                0 <= k < m.functions.len() ==> !imul_polyfill(#[trigger] m.functions[k]))
                ==> ids =~= Set::empty()
            &&& 0 <= i < m.functions.len() && !ids.contains(m.functions[i].id) ==> out.functions[i]
                == (FunctionView { body: rewrite_stmts(m.functions[i].body, r), ..m.functions[i] })
            &&& out.init == rewrite_stmts(m.init, r)
            &&& 0 <= i < m.classes.len() && 0 <= j < m.classes[i].methods.len()
                ==> out.classes[i].methods[j] == (FunctionView {
                body: rewrite_stmts(m.classes[i].methods[j].body, r),
                ..m.classes[i].methods[j]
            })
            &&& 0 <= i < m.classes.len() ==> out.classes[i].name == m.classes[i].name
                && out.classes[i].fields == m.classes[i].fields && out.classes[i].native_extends
                == m.classes[i].native_extends
        }),
{
    let ids = imul_ids(m.functions);
    if 0 <= i < m.functions.len() && imul_polyfill(m.functions[i]) {
        assert(ids.contains(m.functions[i].id));
    }
}

} // verus!

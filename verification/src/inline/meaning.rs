//! What an inlined call means.
//!
//! The meaning of expressions is left open: a node gets its value from the values of
//! its parts, by a function that may be any. Whatever that function is, an inlined
//! call has the value that the body has where the parameters hold the arguments.

use crate::hir::LocalId;
use crate::inline::expand::{
    bind_args, method_expr, pairs, simple_function, simple_method, void_stmts,
};
use crate::inline::fresh::{free, lemma_free, parts_free};
use crate::model::{ExprView, FunctionView, ParamView, StmtView};
use crate::rebuild::{lemma_children_of_rebuilt, with_children, with_elements, with_fields, with_parts};
use crate::rewrite::{replacement, rewrite_children, rewrite_expr, Rewrite};
use crate::walk::{children, lemma_children_smaller};
use vstd::prelude::*;

verus! {

/// The node of an expression without its parts.
pub open spec fn husk(e: ExprView) -> ExprView {
    with_children(e, Seq::new(children(e).len(), |i: int| ExprView::Undefined))
}

/// The value of an expression: that of its variable, that of `this`, or what `node`
/// makes of the values of its parts.
pub open spec fn value<V>(
    e: ExprView,
    env: spec_fn(LocalId) -> V,
    this: V,
    node: spec_fn(ExprView, Seq<V>) -> V,
) -> V
    decreases e, 1nat,
{
    match e {
        ExprView::LocalGet(id) => env(id),
        ExprView::This => this,
        _ => node(husk(e), part_values(e, env, this, node)),
    }
}

/// The values of the parts of an expression.
pub open spec fn part_values<V>(
    e: ExprView,
    env: spec_fn(LocalId) -> V,
    this: V,
    node: spec_fn(ExprView, Seq<V>) -> V,
) -> Seq<V>
    decreases e, 0nat,
{
    proof {
        assert forall|i: int| 0 <= i < children(e).len() implies decreases_to!(
            e => #[trigger] children(e)[i],
        ) by {
            lemma_children_smaller(e, i);
        }
    }
    Seq::new(
        children(e).len(),
        |i: int|
            if 0 <= i < children(e).len() {
                value(children(e)[i], env, this, node)
            } else {
                arbitrary()
            },
    )
}

/// Whether the expression only reads variables: it assigns none, and makes no closure.
pub open spec fn reads_only(e: ExprView) -> bool
    decreases e,
{
    proof {
        assert forall|i: int| 0 <= i < children(e).len() implies decreases_to!(
            e => #[trigger] children(e)[i],
        ) by {
            lemma_children_smaller(e, i);
        }
    }
    &&& !(e is LocalSet || e is Update || e is LocalCall || e is Closure)
    &&& forall|i: int| 0 <= i < children(e).len() ==> reads_only(#[trigger] children(e)[i])
}

pub proof fn lemma_reads_only(e: ExprView, i: int)
    requires
        reads_only(e),
        0 <= i < children(e).len(),
    ensures
        reads_only(children(e)[i]),
{
}

/// The node of an expression does not depend on its parts.
pub proof fn lemma_husk(e: ExprView, kids: Seq<ExprView>)
    requires
        kids.len() == children(e).len(),
        !(e is Closure),
    ensures
        husk(with_children(e, kids)) == husk(e),
{
    let r = with_children(e, kids);
    lemma_children_of_rebuilt(e, kids);
    let none = Seq::new(children(e).len(), |i: int| ExprView::Undefined);
    assert(Seq::new(children(r).len(), |i: int| ExprView::Undefined) =~= none);
    match e {
        ExprView::CallSpread { args, .. } => assert(with_elements(
            with_elements(args, kids.skip(1)),
            none.skip(1),
        ) =~= with_elements(args, none.skip(1))),
        ExprView::ArraySpread(items) => assert(with_elements(with_elements(items, kids), none)
            =~= with_elements(items, none)),
        ExprView::Object(props) => assert(with_fields(with_fields(props, kids), none)
            =~= with_fields(props, none)),
        ExprView::ObjectSpread { parts } => assert(with_parts(with_parts(parts, kids), none)
            =~= with_parts(parts, none)),
        _ => {},
    }
}

/// Whether the replacement of every variable that the expression reads has, in the
/// first environment, the value that the variable has in the second.
pub open spec fn agree<V>(
    e: ExprView,
    m: Map<LocalId, ExprView>,
    a: spec_fn(LocalId) -> V,
    b: spec_fn(LocalId) -> V,
    this: V,
    node: spec_fn(ExprView, Seq<V>) -> V,
) -> bool {
    forall|x: LocalId|
        !#[trigger] free(e, x) ==> b(x) == if m.contains_key(x) {
            value(m[x], a, this, node)
        } else {
            a(x)
        }
}

/// Substitution is by value: an expression with others put in for its variables has
/// the value of the expression where the variables have the values of the others.
pub proof fn law_substitution_is_by_value<V>(
    e: ExprView,
    m: Map<LocalId, ExprView>,
    a: spec_fn(LocalId) -> V,
    b: spec_fn(LocalId) -> V,
    this: V,
    node: spec_fn(ExprView, Seq<V>) -> V,
)
    requires
        reads_only(e),
        agree(e, m, a, b, this, node),
    ensures
        value(rewrite_expr(e, Rewrite::Locals(m)), a, this, node) == value(e, b, this, node),
    decreases e,
{
    let r = Rewrite::Locals(m);
    match e {
        ExprView::LocalGet(x) => {
            lemma_free(e, x);
            assert(!free(e, x));
            assert(children(e) =~= Seq::empty());
        },
        ExprView::This => {
            assert(rewrite_expr(e, r) == e);
        },
        _ => {
            let kids = rewrite_children(e, r);
            assert forall|i: int| 0 <= i < children(e).len() implies value(
                #[trigger] kids[i],
                a,
                this,
                node,
            ) == value(children(e)[i], b, this, node) by {
                lemma_children_smaller(e, i);
                lemma_reads_only(e, i);
                assert forall|x: LocalId| !#[trigger] free(children(e)[i], x) implies b(x) == if m
                    .contains_key(x) {
                    value(m[x], a, this, node)
                } else {
                    a(x)
                } by {
                    lemma_free(e, x);
                    assert(!parts_free(e, x));
                    assert(!free(e, x));
                }
                law_substitution_is_by_value(children(e)[i], m, a, b, this, node);
            }
            let w = with_children(e, kids);
            assert(rewrite_expr(e, r) == w);
            lemma_children_of_rebuilt(e, kids);
            lemma_husk(e, kids);
            assert(part_values(w, a, this, node) =~= part_values(e, b, this, node));
        },
    }
}

/// The receiver put in for `this`: the value is the one where `this` is the receiver.
pub proof fn law_receiver_is_this<V>(
    e: ExprView,
    obj: LocalId,
    env: spec_fn(LocalId) -> V,
    this: V,
    node: spec_fn(ExprView, Seq<V>) -> V,
)
    requires
        reads_only(e),
    ensures
        value(rewrite_expr(e, Rewrite::This(obj)), env, this, node) == value(
            e,
            env,
            env(obj),
            node,
        ),
    decreases e,
{
    let r = Rewrite::This(obj);
    match e {
        ExprView::LocalGet(x) => {
            assert(children(e) =~= Seq::empty());
            assert(rewrite_expr(e, r) == e);
        },
        ExprView::This => {},
        _ => {
            let kids = rewrite_children(e, r);
            assert forall|i: int| 0 <= i < children(e).len() implies value(
                #[trigger] kids[i],
                env,
                this,
                node,
            ) == value(children(e)[i], env, env(obj), node) by {
                lemma_children_smaller(e, i);
                lemma_reads_only(e, i);
                law_receiver_is_this(children(e)[i], obj, env, this, node);
            }
            let w = with_children(e, kids);
            assert(rewrite_expr(e, r) == w);
            lemma_children_of_rebuilt(e, kids);
            lemma_husk(e, kids);
            assert(part_values(w, env, this, node) =~= part_values(e, env, env(obj), node));
        },
    }
}

// ---------------------------------------------------------------------------
// Arguments and parameters
// ---------------------------------------------------------------------------

/// Whether no two parameters have the same id.
pub open spec fn distinct_params(params: Seq<ParamView>) -> bool {
    forall|i: int, j: int|
        0 <= i < j < params.len() ==> (#[trigger] params[i]).id != (#[trigger] params[j]).id
}

/// Whether the id is that of one of the first parameters.
pub open spec fn among_first(params: Seq<ParamView>, k: nat, x: LocalId) -> bool {
    exists|i: int| 0 <= i < k && (#[trigger] params[i]).id == x
}

/// Arguments go by position: the parameter at a position stands for the argument at
/// the same position, and nothing else is replaced. Surplus arguments are dropped, and
/// parameters without an argument stay.
pub proof fn law_arguments_go_by_position(params: Seq<ParamView>, args: Seq<ExprView>, k: nat)
    requires
        distinct_params(params),
        k <= params.len(),
    ensures
        forall|i: int|
            0 <= i < k ==> bind_args(params, args, k).contains_key((#[trigger] params[i]).id)
                && bind_args(params, args, k)[params[i].id] == args[i],
        forall|x: LocalId|
            bind_args(params, args, k).contains_key(x) ==> #[trigger] among_first(params, k, x),
        pairs(params, args) <= params.len(),
        pairs(params, args) <= args.len(),
        pairs(params, args) == params.len() || pairs(params, args) == args.len(),
    decreases k,
{
    if k > 0 {
        let j = (k - 1) as nat;
        law_arguments_go_by_position(params, args, j);
        let m0 = bind_args(params, args, j);
        let m = bind_args(params, args, k);
        assert forall|i: int| 0 <= i < k implies m.contains_key((#[trigger] params[i]).id)
            && m[params[i].id] == args[i] by {
            if i < j {
                assert(params[i].id != params[j as int].id);
                assert(m0.contains_key(params[i].id));
            }
        }
        assert forall|x: LocalId| m.contains_key(x) implies #[trigger] among_first(params, k, x) by {
            if x == params[j as int].id {
            } else {
                assert(m0.contains_key(x));
                assert(among_first(params, j, x));
                let i = choose|i: int| 0 <= i < j && (#[trigger] params[i]).id == x;
                assert(0 <= i < k && params[i].id == x);
            }
        }
    }
}

/// Whether `inside` is the environment of a call: each parameter that has an argument
/// holds its value, and every other variable is the one outside.
pub open spec fn call_env<V>(
    params: Seq<ParamView>,
    args: Seq<ExprView>,
    outside: spec_fn(LocalId) -> V,
    inside: spec_fn(LocalId) -> V,
    this: V,
    node: spec_fn(ExprView, Seq<V>) -> V,
) -> bool {
    let k = pairs(params, args);
    &&& forall|i: int|
        0 <= i < k ==> inside((#[trigger] params[i]).id) == value(args[i], outside, this, node)
    &&& forall|x: LocalId| !#[trigger] among_first(params, k, x) ==> inside(x) == outside(x)
}

proof fn lemma_bound_args_agree<V>(
    b: ExprView,
    params: Seq<ParamView>,
    args: Seq<ExprView>,
    outside: spec_fn(LocalId) -> V,
    inside: spec_fn(LocalId) -> V,
    this: V,
    node: spec_fn(ExprView, Seq<V>) -> V,
)
    requires
        distinct_params(params),
        call_env(params, args, outside, inside, this, node),
    ensures
        agree(b, bind_args(params, args, pairs(params, args)), outside, inside, this, node),
{
    let k = pairs(params, args);
    let m = bind_args(params, args, k);
    law_arguments_go_by_position(params, args, k);
    assert forall|x: LocalId| !#[trigger] free(b, x) implies inside(x) == if m.contains_key(x) {
        value(m[x], outside, this, node)
    } else {
        outside(x)
    } by {
        if among_first(params, k, x) {
            let i = choose|i: int| 0 <= i < k && (#[trigger] params[i]).id == x;
            assert(m.contains_key(params[i].id));
        }
    }
}

/// A call of a function that only returns an expression has, inlined, the value of
/// that expression where the i-th parameter holds the i-th argument.
pub proof fn law_inlined_return_means_the_call<V>(
    f: FunctionView,
    b: ExprView,
    args: Seq<ExprView>,
    n: nat,
    outside: spec_fn(LocalId) -> V,
    inside: spec_fn(LocalId) -> V,
    this: V,
    node: spec_fn(ExprView, Seq<V>) -> V,
)
    requires
        f.body == seq![StmtView::Return(Some(b))],
        distinct_params(f.params),
        reads_only(b),
        call_env(f.params, args, outside, inside, this, node),
    ensures
        simple_function(f, args, n) matches Some(r) && r.setup.len() == 0 && r.next == n && value(
            r.result,
            outside,
            this,
            node,
        ) == value(b, inside, this, node),
{
    assert(f.body.last() == StmtView::Return(Some(b)));
    lemma_bound_args_agree(b, f.params, args, outside, inside, this, node);
    law_substitution_is_by_value(
        b,
        bind_args(f.params, args, pairs(f.params, args)),
        outside,
        inside,
        this,
        node,
    );
}

pub proof fn lemma_rewritten_reads_only(e: ExprView, m: Map<LocalId, ExprView>)
    requires
        reads_only(e),
        forall|x: LocalId| #[trigger] m.contains_key(x) ==> reads_only(m[x]),
    ensures
        reads_only(rewrite_expr(e, Rewrite::Locals(m))),
    decreases e,
{
    let r = Rewrite::Locals(m);
    if replacement(e, r) is None {
        let kids = rewrite_children(e, r);
        let w = with_children(e, kids);
        assert(rewrite_expr(e, r) == w);
        lemma_children_of_rebuilt(e, kids);
        assert forall|i: int| 0 <= i < children(w).len() implies reads_only(
            #[trigger] children(w)[i],
        ) by {
            lemma_children_smaller(e, i);
            lemma_reads_only(e, i);
            lemma_rewritten_reads_only(children(e)[i], m);
        }
    }
}

/// A call of a method that only returns an expression has, inlined, the value of that
/// expression where the i-th parameter holds the i-th argument, and `this` is the
/// receiver. (`this` in an argument is the receiver too.)
pub proof fn law_inlined_method_return_means_the_call<V>(
    obj: LocalId,
    f: FunctionView,
    b: ExprView,
    args: Seq<ExprView>,
    n: nat,
    outside: spec_fn(LocalId) -> V,
    inside: spec_fn(LocalId) -> V,
    this: V,
    node: spec_fn(ExprView, Seq<V>) -> V,
)
    requires
        f.body == seq![StmtView::Return(Some(b))],
        distinct_params(f.params),
        reads_only(b),
        forall|i: int| 0 <= i < args.len() ==> reads_only(#[trigger] args[i]),
        call_env(f.params, args, outside, inside, outside(obj), node),
    ensures
        simple_method(obj, f, args, n) matches Some(r) && r.setup.len() == 0 && r.next == n
            && value(r.result, outside, this, node) == value(b, inside, outside(obj), node),
{
    let m = bind_args(f.params, args, pairs(f.params, args));
    assert(f.body.last() == StmtView::Return(Some(b)));
    lemma_method_expr_means(obj, f.params, b, args, outside, inside, this, node);
}

proof fn lemma_method_expr_means<V>(
    obj: LocalId,
    params: Seq<ParamView>,
    b: ExprView,
    args: Seq<ExprView>,
    outside: spec_fn(LocalId) -> V,
    inside: spec_fn(LocalId) -> V,
    this: V,
    node: spec_fn(ExprView, Seq<V>) -> V,
)
    requires
        distinct_params(params),
        reads_only(b),
        forall|i: int| 0 <= i < args.len() ==> reads_only(#[trigger] args[i]),
        call_env(params, args, outside, inside, outside(obj), node),
    ensures
        value(
            method_expr(b, bind_args(params, args, pairs(params, args)), obj),
            outside,
            this,
            node,
        ) == value(b, inside, outside(obj), node),
{
    let k = pairs(params, args);
    let m = bind_args(params, args, k);
    law_arguments_go_by_position(params, args, k);
    assert forall|x: LocalId| #[trigger] m.contains_key(x) implies reads_only(m[x]) by {
        assert(among_first(params, k, x));
        let i = choose|i: int| 0 <= i < k && (#[trigger] params[i]).id == x;
        assert(m[params[i].id] == args[i]);
    }
    lemma_rewritten_reads_only(b, m);
    law_receiver_is_this(rewrite_expr(b, Rewrite::Locals(m)), obj, outside, this, node);
    lemma_bound_args_agree(b, params, args, outside, inside, outside(obj), node);
    law_substitution_is_by_value(b, m, outside, inside, outside(obj), node);
}

/// A call of a method that computes one expression and returns nothing leaves, inlined,
/// one statement, with the value of that expression where the parameters hold the
/// arguments and `this` is the receiver; the call itself is then undefined.
pub proof fn law_inlined_void_method_means_the_call<V>(
    obj: LocalId,
    f: FunctionView,
    b: ExprView,
    args: Seq<ExprView>,
    n: nat,
    outside: spec_fn(LocalId) -> V,
    inside: spec_fn(LocalId) -> V,
    this: V,
    node: spec_fn(ExprView, Seq<V>) -> V,
)
    requires
        f.body == seq![StmtView::Expr(b)] || f.body == seq![
            StmtView::Expr(b),
            StmtView::Return(None),
        ],
        distinct_params(f.params),
        reads_only(b),
        forall|i: int| 0 <= i < args.len() ==> reads_only(#[trigger] args[i]),
        call_env(f.params, args, outside, inside, outside(obj), node),
    ensures
        simple_method(obj, f, args, n) matches Some(r) && r.result == ExprView::Undefined
            && r.next == n && r.setup.len() == 1 && (r.setup[0] matches StmtView::Expr(x) && value(
            x,
            outside,
            this,
            node,
        ) == value(b, inside, outside(obj), node)),
{
    let m = bind_args(f.params, args, pairs(f.params, args));
    reveal_with_fuel(void_stmts, 3);
    let one = seq![StmtView::Expr(b)];
    assert(one.drop_last() =~= Seq::empty());
    assert(one.last() == StmtView::Expr(b));
    if f.body.len() == 2 {
        assert(f.body.drop_last() =~= one);
        assert(f.body.last() == StmtView::Return(None));
    }
    lemma_method_expr_means(obj, f.params, b, args, outside, inside, this, node);
}

} // verus!

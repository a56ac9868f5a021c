//! The immediate sub-expressions of an expression: the one place that knows
//! where every kind of expression keeps its children.

use crate::hir::{ArrayElement, Expr, Param};
use crate::model::{
    elements_view, exprs_view, fields_view, params_view, parts_view, ElementView, ExprView,
    ParamView,
};
use vstd::prelude::*;

verus! {

/// The expression inside an array element or a spread argument.
pub open spec fn element_expr(x: ElementView) -> ExprView {
    match x {
        ElementView::Expr(e) => e,
        ElementView::Spread(e) => e,
    }
}

/// The default values that the parameters have, in order.
pub open spec fn param_defaults(params: Seq<ParamView>) -> Seq<ExprView>
    decreases params.len(),
{
    if params.len() == 0 {
        Seq::empty()
    } else {
        let front = param_defaults(params.drop_last());
        match params.last().default {
            Some(e) => front.push(e),
            None => front,
        }
    }
}

/// The immediate sub-expressions of `e`, in order. The statements of a closure
/// body are not among them; the defaults of its parameters are.
pub open spec fn children(e: ExprView) -> Seq<ExprView> {
    match e {
        ExprView::Number(_)
        | ExprView::Integer(_)
        | ExprView::Bool(_)
        | ExprView::String(_)
        | ExprView::WtfString(_)
        | ExprView::Null
        | ExprView::Undefined
        | ExprView::This
        | ExprView::LocalGet(_)
        | ExprView::GlobalGet(_)
        | ExprView::FuncRef(_)
        | ExprView::ExternFuncRef { .. }
        | ExprView::Update { .. } => Seq::empty(),
        ExprView::LocalSet(_, v) => seq![*v],
        ExprView::GlobalSet(_, v) => seq![*v],
        ExprView::Binary { left, right, .. } => seq![*left, *right],
        ExprView::Logical { left, right, .. } => seq![*left, *right],
        ExprView::Compare { left, right, .. } => seq![*left, *right],
        ExprView::Unary { operand, .. } => seq![*operand],
        ExprView::Conditional { condition, then_expr, else_expr } => seq![
            *condition,
            *then_expr,
            *else_expr,
        ],
        ExprView::Call { callee, args, .. } => seq![*callee] + args,
        ExprView::CallSpread { callee, args } => seq![*callee] + args.map_values(
            |x: ElementView| element_expr(x),
        ),
        ExprView::NativeMethodCall { object, args, .. } => match object {
            Some(o) => seq![*o] + args,
            None => args,
        },
        ExprView::New { args, .. } => args,
        ExprView::NewDynamic { callee, args } => seq![*callee] + args,
        ExprView::SuperCall(args) => args,
        ExprView::SuperMethodCall { args, .. } => args,
        ExprView::PropertyGet { object, .. } => seq![*object],
        ExprView::PropertySet { object, value, .. } => seq![*object, *value],
        ExprView::IndexGet { object, index } => seq![*object, *index],
        ExprView::IndexSet { object, index, value } => seq![*object, *index, *value],
        ExprView::Array(items) => items,
        ExprView::ArraySpread(items) => items.map_values(|x: ElementView| element_expr(x)),
        ExprView::Object(props) => props.map_values(|p: (Seq<char>, ExprView)| p.1),
        ExprView::ObjectSpread { parts } => parts.map_values(
            |p: (Option<Seq<char>>, ExprView)| p.1,
        ),
        ExprView::ArrayMap { array, callback } => seq![*array, *callback],
        ExprView::Closure { params, .. } => param_defaults(params),
        ExprView::LocalCall { args, .. } => args,
        ExprView::Intrinsic { args, .. } => args,
    }
}

/// Every default of a parameter list belongs to one of the parameters.
pub proof fn lemma_param_defaults_source(params: Seq<ParamView>, i: int)
    requires
        0 <= i < param_defaults(params).len(),
    ensures
        exists|j: int|
            0 <= j < params.len() && (#[trigger] params[j]).default == Some(
                param_defaults(params)[i],
            ),
    decreases params.len(),
{
    let front = param_defaults(params.drop_last());
    if i < front.len() {
        lemma_param_defaults_source(params.drop_last(), i);
        let j = choose|j: int|
            0 <= j < params.drop_last().len() && (#[trigger] params.drop_last()[j]).default == Some(
                front[i],
            );
        assert(params[j] == params.drop_last()[j]);
    } else {
        assert(params[params.len() - 1] == params.last());
    }
}

/// The default of a parameter is among the defaults.
pub proof fn lemma_default_listed(params: Seq<ParamView>, j: int)
    requires
        0 <= j < params.len(),
        params[j].default is Some,
    ensures
        exists|i: int|
            0 <= i < param_defaults(params).len() && #[trigger] param_defaults(params)[i]
                == params[j].default->0,
    decreases params.len(),
{
    let front = params.drop_last();
    let all = param_defaults(params);
    if j < front.len() {
        lemma_default_listed(front, j);
        let i = choose|i: int|
            0 <= i < param_defaults(front).len() && #[trigger] param_defaults(front)[i]
                == front[j].default->0;
        assert(all[i] == param_defaults(front)[i]);
    } else {
        assert(all[all.len() - 1] == params[j].default->0);
    }
}

/// The children of an expression are smaller than it, which is what recursion
/// over expressions rests on.
pub proof fn lemma_children_smaller(e: ExprView, i: int)
    requires
        0 <= i < children(e).len(),
    ensures
        decreases_to!(e => children(e)[i]),
{
    match e {
        ExprView::Call { callee, args, .. } => {
            if i > 0 {
                assert(children(e)[i] == args[i - 1]);
            }
        },
        ExprView::NewDynamic { callee, args } => {
            if i > 0 {
                assert(children(e)[i] == args[i - 1]);
            }
        },
        ExprView::CallSpread { callee, args } => {
            if i > 0 {
                assert(children(e)[i] == element_expr(args[i - 1]));
            }
        },
        ExprView::NativeMethodCall { object, args, .. } => {
            if object is Some && i > 0 {
                assert(children(e)[i] == args[i - 1]);
            }
        },
        ExprView::ArraySpread(items) => {
            assert(children(e)[i] == element_expr(items[i]));
        },
        ExprView::Object(props) => {
            assert(children(e)[i] == props[i].1);
        },
        ExprView::ObjectSpread { parts } => {
            assert(children(e)[i] == parts[i].1);
        },
        ExprView::Closure { params, .. } => {
            lemma_param_defaults_source(params, i);
            let j = choose|j: int|
                0 <= j < params.len() && (#[trigger] params[j]).default == Some(
                    param_defaults(params)[i],
                );
            assert(children(e)[i] == params[j].default->Some_0);
            assert(decreases_to!(params => params[j]));
        },
        _ => {},
    }
}

/// Appends references to the expressions of `v` to `out`.
fn push_exprs<'a>(out: &mut Vec<&'a Expr>, v: &'a Vec<Expr>)
    ensures
        final(out)@.len() == old(out)@.len() + v@.len(),
        forall|i: int| 0 <= i < old(out)@.len() ==> #[trigger] final(out)@[i] == old(out)@[i],
        forall|i: int|
            old(out)@.len() <= i < final(out)@.len() ==> *(#[trigger] final(out)@[i]) == v@[i
                - old(out)@.len()],
        exprs_view(v@).len() == v@.len(),
        forall|i: int|
            old(out)@.len() <= i < final(out)@.len() ==> (#[trigger] final(out)@[i]).view()
                == exprs_view(v@)[i - old(out)@.len()],
{
    let mut k: usize = 0;
    while k < v.len()
        invariant
            k <= v@.len(),
            out@.len() == old(out)@.len() + k,
            forall|i: int| 0 <= i < old(out)@.len() ==> #[trigger] out@[i] == old(out)@[i],
            forall|i: int|
                old(out)@.len() <= i < out@.len() ==> *(#[trigger] out@[i]) == v@[i
                    - old(out)@.len()],
        decreases v@.len() - k,
    {
        out.push(&v[k]);
        k += 1;
    }
}

/// Appends references to the expressions inside the elements of `v`.
fn push_elements<'a>(out: &mut Vec<&'a Expr>, v: &'a Vec<ArrayElement>)
    ensures
        final(out)@.len() == old(out)@.len() + v@.len(),
        forall|i: int| 0 <= i < old(out)@.len() ==> #[trigger] final(out)@[i] == old(out)@[i],
        forall|i: int|
            old(out)@.len() <= i < final(out)@.len() ==> {
                ||| v@[i - old(out)@.len()] == ArrayElement::Expr(*(#[trigger] final(out)@[i]))
                ||| v@[i - old(out)@.len()] == ArrayElement::Spread(*final(out)@[i])
            },
        elements_view(v@).len() == v@.len(),
        forall|i: int|
            old(out)@.len() <= i < final(out)@.len() ==> (#[trigger] final(out)@[i]).view()
                == element_expr(elements_view(v@)[i - old(out)@.len()]),
{
    let mut k: usize = 0;
    while k < v.len()
        invariant
            k <= v@.len(),
            out@.len() == old(out)@.len() + k,
            forall|i: int| 0 <= i < old(out)@.len() ==> #[trigger] out@[i] == old(out)@[i],
            forall|i: int|
                old(out)@.len() <= i < out@.len() ==> {
                    ||| v@[i - old(out)@.len()] == ArrayElement::Expr(*(#[trigger] out@[i]))
                    ||| v@[i - old(out)@.len()] == ArrayElement::Spread(*out@[i])
                },
        decreases v@.len() - k,
    {
        match &v[k] {
            ArrayElement::Expr(e) => out.push(e),
            ArrayElement::Spread(e) => out.push(e),
        }
        k += 1;
    }
}

/// References to the values of the properties of an object literal.
fn field_values<'a>(v: &'a Vec<(String, Expr)>) -> (r: Vec<&'a Expr>)
    ensures
        r@.len() == v@.len(),
        forall|i: int| 0 <= i < v@.len() ==> *(#[trigger] r@[i]) == v@[i].1,
        fields_view(v@).len() == v@.len(),
        forall|i: int| 0 <= i < v@.len() ==> (#[trigger] r@[i]).view() == fields_view(v@)[i].1,
{
    let mut out: Vec<&'a Expr> = Vec::new();
    let mut k: usize = 0;
    while k < v.len()
        invariant
            k <= v@.len(),
            out@.len() == k,
            forall|i: int| 0 <= i < k ==> *(#[trigger] out@[i]) == v@[i].1,
        decreases v@.len() - k,
    {
        out.push(&v[k].1);
        k += 1;
    }
    out
}

/// References to the values of the parts of an object with spreads.
fn part_values<'a>(v: &'a Vec<(Option<String>, Expr)>) -> (r: Vec<&'a Expr>)
    ensures
        r@.len() == v@.len(),
        forall|i: int| 0 <= i < v@.len() ==> *(#[trigger] r@[i]) == v@[i].1,
        parts_view(v@).len() == v@.len(),
        forall|i: int| 0 <= i < v@.len() ==> (#[trigger] r@[i]).view() == parts_view(v@)[i].1,
{
    let mut out: Vec<&'a Expr> = Vec::new();
    let mut k: usize = 0;
    while k < v.len()
        invariant
            k <= v@.len(),
            out@.len() == k,
            forall|i: int| 0 <= i < k ==> *(#[trigger] out@[i]) == v@[i].1,
        decreases v@.len() - k,
    {
        out.push(&v[k].1);
        k += 1;
    }
    out
}

/// References to the defaults that the parameters have.
pub fn default_values<'a>(v: &'a Vec<Param>) -> (r: Vec<&'a Expr>)
    ensures
        r@.len() == param_defaults(params_view(v@)).len(),
        forall|i: int|
            0 <= i < r@.len() ==> (#[trigger] r@[i]).view() == param_defaults(params_view(v@))[i],
        forall|i: int| 0 <= i < r@.len() ==> decreases_to!(v => *(#[trigger] r@[i])),
{
    let mut out: Vec<&'a Expr> = Vec::new();
    let mut k: usize = 0;
    while k < v.len()
        invariant
            k <= v@.len(),
            out@.len() == param_defaults(params_view(v@).take(k as int)).len(),
            forall|i: int|
                0 <= i < out@.len() ==> (#[trigger] out@[i]).view() == param_defaults(
                    params_view(v@).take(k as int),
                )[i],
            forall|i: int| 0 <= i < out@.len() ==> decreases_to!(v => *(#[trigger] out@[i])),
        decreases v@.len() - k,
    {
        proof {
            let all = params_view(v@);
            assert(all.take(k + 1).drop_last() =~= all.take(k as int));
            assert(all.take(k + 1).last() == v@[k as int].view());
        }
        match &v[k].default {
            Some(e) => {
                assert(decreases_to!(v => v@[k as int]));
                out.push(e);
            },
            None => {},
        }
        k += 1;
    }
    assert(params_view(v@).take(k as int) =~= params_view(v@));
    out
}

/// References to the immediate sub-expressions of `e`, in order.
pub fn children_of<'a>(e: &'a Expr) -> (r: Vec<&'a Expr>)
    ensures
        r@.len() == children(e@).len(),
        forall|i: int| 0 <= i < r@.len() ==> (#[trigger] r@[i]).view() == children(e@)[i],
        forall|i: int| 0 <= i < r@.len() ==> decreases_to!(*e => *(#[trigger] r@[i])),
{
    let mut out: Vec<&'a Expr> = Vec::new();
    match e {
        Expr::Number(_)
        | Expr::Integer(_)
        | Expr::Bool(_)
        | Expr::String(_)
        | Expr::WtfString(_)
        | Expr::Null
        | Expr::Undefined
        | Expr::This
        | Expr::LocalGet(_)
        | Expr::GlobalGet(_)
        | Expr::FuncRef(_)
        | Expr::ExternFuncRef { .. }
        | Expr::Update { .. } => {},
        Expr::LocalSet(_, v) => out.push(v),
        Expr::GlobalSet(_, v) => out.push(v),
        Expr::Binary { left, right, .. } => {
            out.push(left);
            out.push(right);
        },
        Expr::Logical { left, right, .. } => {
            out.push(left);
            out.push(right);
        },
        Expr::Compare { left, right, .. } => {
            out.push(left);
            out.push(right);
        },
        Expr::Unary { operand, .. } => out.push(operand),
        Expr::Conditional { condition, then_expr, else_expr } => {
            out.push(condition);
            out.push(then_expr);
            out.push(else_expr);
        },
        Expr::Call { callee, args, .. } => {
            out.push(callee);
            push_exprs(&mut out, args);
        },
        Expr::CallSpread { callee, args } => {
            out.push(callee);
            push_elements(&mut out, args);
        },
        Expr::NativeMethodCall { object, args, .. } => {
            match object {
                Some(o) => out.push(o),
                None => {},
            }
            push_exprs(&mut out, args);
        },
        Expr::New { args, .. } => push_exprs(&mut out, args),
        Expr::NewDynamic { callee, args } => {
            out.push(callee);
            push_exprs(&mut out, args);
        },
        Expr::SuperCall(args) => push_exprs(&mut out, args),
        Expr::SuperMethodCall { args, .. } => push_exprs(&mut out, args),
        Expr::PropertyGet { object, .. } => out.push(object),
        Expr::PropertySet { object, value, .. } => {
            out.push(object);
            out.push(value);
        },
        Expr::IndexGet { object, index } => {
            out.push(object);
            out.push(index);
        },
        Expr::IndexSet { object, index, value } => {
            out.push(object);
            out.push(index);
            out.push(value);
        },
        Expr::Array(items) => push_exprs(&mut out, items),
        Expr::ArraySpread(items) => push_elements(&mut out, items),
        Expr::Object(props) => {
            out = field_values(props);
        },
        Expr::ObjectSpread { parts } => {
            out = part_values(parts);
        },
        Expr::ArrayMap { array, callback } => {
            out.push(array);
            out.push(callback);
        },
        Expr::Closure { params, .. } => {
            out = default_values(params);
        },
        Expr::LocalCall { args, .. } => push_exprs(&mut out, args),
        Expr::Intrinsic { args, .. } => push_exprs(&mut out, args),
    }
    out
}

/// Every expression that a node holds directly is one of its children: operands, callee
/// and arguments, receiver, object, index and value, items, properties, and the defaults
/// of a closure's parameters.
pub proof fn law_every_part_is_a_child(e: ExprView, i: int)
    ensures
        e matches ExprView::LocalSet(_, v) ==> children(e).contains(*v),
        e matches ExprView::GlobalSet(_, v) ==> children(e).contains(*v),
        e matches ExprView::Binary { left, right, .. } ==> children(e) == seq![*left, *right],
        e matches ExprView::Logical { left, right, .. } ==> children(e) == seq![*left, *right],
        e matches ExprView::Compare { left, right, .. } ==> children(e) == seq![*left, *right],
        e matches ExprView::Unary { operand, .. } ==> children(e).contains(*operand),
        e matches ExprView::Conditional { condition, then_expr, else_expr } ==> children(e)
            == seq![*condition, *then_expr, *else_expr],
        e matches ExprView::Call { callee, args, .. } ==> children(e)[0] == *callee && children(
            e,
        ).skip(1) == args,
        e matches ExprView::CallSpread { callee, args } ==> children(e)[0] == *callee && (0 <= i
            < args.len() ==> children(e)[i + 1] == element_expr(args[i])),
        e matches ExprView::NativeMethodCall { object, args, .. } ==> (0 <= i < args.len()
            ==> children(e).contains(args[i])) && (object matches Some(o) ==> children(e)[0]
            == *o),
        e matches ExprView::New { args, .. } ==> children(e) == args,
        e matches ExprView::NewDynamic { callee, args } ==> children(e)[0] == *callee && children(
            e,
        ).skip(1) == args,
        e matches ExprView::SuperCall(args) ==> children(e) == args,
        e matches ExprView::SuperMethodCall { args, .. } ==> children(e) == args,
        e matches ExprView::PropertyGet { object, .. } ==> children(e).contains(*object),
        e matches ExprView::PropertySet { object, value, .. } ==> children(e) == seq![
            *object,
            *value,
        ],
        e matches ExprView::IndexGet { object, index } ==> children(e) == seq![*object, *index],
        e matches ExprView::IndexSet { object, index, value } ==> children(e) == seq![
            *object,
            *index,
            *value,
        ],
        e matches ExprView::Array(items) ==> children(e) == items,
        e matches ExprView::ArraySpread(items) ==> 0 <= i < items.len() ==> children(e)[i]
            == element_expr(items[i]),
        e matches ExprView::Object(props) ==> 0 <= i < props.len() ==> children(e)[i]
            == props[i].1,
        e matches ExprView::ObjectSpread { parts } ==> 0 <= i < parts.len() ==> children(e)[i]
            == parts[i].1,
        e matches ExprView::ArrayMap { array, callback } ==> children(e) == seq![*array, *callback],
        e matches ExprView::Closure { params, .. } ==> 0 <= i < params.len() ==> (
        params[i].default matches Some(d) ==> children(e).contains(d)),
        e matches ExprView::LocalCall { args, .. } ==> children(e) == args,
        e matches ExprView::Intrinsic { args, .. } ==> children(e) == args,
        forall|x: ExprView|
            #![auto]
            element_expr(ElementView::Expr(x)) == x && element_expr(ElementView::Spread(x)) == x,
{
    let kids = children(e);
    match e {
        ExprView::LocalSet(_, v) => assert(kids[0] == *v),
        ExprView::GlobalSet(_, v) => assert(kids[0] == *v),
        ExprView::Unary { operand, .. } => assert(kids[0] == *operand),
        ExprView::PropertyGet { object, .. } => assert(kids[0] == *object),
        ExprView::Call { args, .. } => assert(kids.skip(1) =~= args),
        ExprView::NewDynamic { args, .. } => assert(kids.skip(1) =~= args),
        ExprView::NativeMethodCall { object, args, .. } => {
            if 0 <= i < args.len() {
                if object is Some {
                    assert(kids[i + 1] == args[i]);
                } else {
                    assert(kids[i] == args[i]);
                }
            }
        },
        ExprView::Closure { params, .. } => {
            if 0 <= i < params.len() && params[i].default is Some {
                lemma_default_listed(params, i);
            }
        },
        _ => {},
    }
}

} // verus!

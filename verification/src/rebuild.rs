//! Putting an expression together again from new sub-expressions: the inverse
//! of taking its children apart.

use crate::copy::{copy_opt_str, copy_types};
use crate::hir::{ArrayElement, Expr};
use crate::model::{
    elements_view, exprs_view, fields_view, opt_str, parts_view, ElementView, ExprView,
};
use crate::walk::{children, element_expr};
use vstd::prelude::*;

verus! {

/// The element of the same kind around another expression.
pub open spec fn with_element(x: ElementView, e: ExprView) -> ElementView {
    match x {
        ElementView::Expr(_) => ElementView::Expr(e),
        ElementView::Spread(_) => ElementView::Spread(e),
    }
}

/// The elements of the same kinds around other expressions.
pub open spec fn with_elements(v: Seq<ElementView>, kids: Seq<ExprView>) -> Seq<ElementView> {
    Seq::new(v.len(), |i: int| with_element(v[i], kids[i]))
}

/// The properties of the same names with other values.
pub open spec fn with_fields(
    v: Seq<(Seq<char>, ExprView)>,
    kids: Seq<ExprView>,
) -> Seq<(Seq<char>, ExprView)> {
    Seq::new(v.len(), |i: int| (v[i].0, kids[i]))
}

/// The parts of the same names with other values.
pub open spec fn with_parts(
    v: Seq<(Option<Seq<char>>, ExprView)>,
    kids: Seq<ExprView>,
) -> Seq<(Option<Seq<char>>, ExprView)> {
    Seq::new(v.len(), |i: int| (v[i].0, kids[i]))
}

/// The node of `e` over other children. A closure stays as it is: its
/// parameters and its body are not rebuilt from a list.
pub open spec fn with_children(e: ExprView, kids: Seq<ExprView>) -> ExprView {
    match e {
        ExprView::LocalSet(id, _) => ExprView::LocalSet(id, Box::new(kids[0])),
        ExprView::GlobalSet(id, _) => ExprView::GlobalSet(id, Box::new(kids[0])),
        ExprView::Binary { op, .. } => ExprView::Binary {
            op,
            left: Box::new(kids[0]),
            right: Box::new(kids[1]),
        },
        ExprView::Logical { op, .. } => ExprView::Logical {
            op,
            left: Box::new(kids[0]),
            right: Box::new(kids[1]),
        },
        ExprView::Compare { op, .. } => ExprView::Compare {
            op,
            left: Box::new(kids[0]),
            right: Box::new(kids[1]),
        },
        ExprView::Unary { op, .. } => ExprView::Unary { op, operand: Box::new(kids[0]) },
        ExprView::Conditional { .. } => ExprView::Conditional {
            condition: Box::new(kids[0]),
            then_expr: Box::new(kids[1]),
            else_expr: Box::new(kids[2]),
        },
        ExprView::Call { type_args, .. } => ExprView::Call {
            callee: Box::new(kids[0]),
            args: kids.skip(1),
            type_args,
        },
        ExprView::CallSpread { args, .. } => ExprView::CallSpread {
            callee: Box::new(kids[0]),
            args: with_elements(args, kids.skip(1)),
        },
        ExprView::NativeMethodCall { module, class_name, object, method, .. } => match object {
            Some(_) => ExprView::NativeMethodCall {
                module,
                class_name,
                object: Some(Box::new(kids[0])),
                method,
                args: kids.skip(1),
            },
            None => ExprView::NativeMethodCall { module, class_name, object, method, args: kids },
        },
        ExprView::New { class_name, .. } => ExprView::New { class_name, args: kids },
        ExprView::NewDynamic { .. } => ExprView::NewDynamic {
            callee: Box::new(kids[0]),
            args: kids.skip(1),
        },
        ExprView::SuperCall(_) => ExprView::SuperCall(kids),
        ExprView::SuperMethodCall { method, .. } => ExprView::SuperMethodCall { method, args: kids },
        ExprView::PropertyGet { property, .. } => ExprView::PropertyGet {
            object: Box::new(kids[0]),
            property,
        },
        ExprView::PropertySet { property, .. } => ExprView::PropertySet {
            object: Box::new(kids[0]),
            property,
            value: Box::new(kids[1]),
        },
        ExprView::IndexGet { .. } => ExprView::IndexGet {
            object: Box::new(kids[0]),
            index: Box::new(kids[1]),
        },
        ExprView::IndexSet { .. } => ExprView::IndexSet {
            object: Box::new(kids[0]),
            index: Box::new(kids[1]),
            value: Box::new(kids[2]),
        },
        ExprView::Array(_) => ExprView::Array(kids),
        ExprView::ArraySpread(items) => ExprView::ArraySpread(with_elements(items, kids)),
        ExprView::Object(props) => ExprView::Object(with_fields(props, kids)),
        ExprView::ObjectSpread { parts } => ExprView::ObjectSpread {
            parts: with_parts(parts, kids),
        },
        ExprView::ArrayMap { .. } => ExprView::ArrayMap {
            array: Box::new(kids[0]),
            callback: Box::new(kids[1]),
        },
        ExprView::LocalCall { op, id, .. } => ExprView::LocalCall { op, id, args: kids },
        ExprView::Intrinsic { op, .. } => ExprView::Intrinsic { op, args: kids },
        _ => e,
    }
}

/// An expression put together from its own children is the expression.
pub proof fn lemma_rebuild_same(e: ExprView)
    ensures
        with_children(e, children(e)) == e,
{
    let kids = children(e);
    match e {
        ExprView::Call { args, .. } => assert(kids.skip(1) =~= args),
        ExprView::NewDynamic { args, .. } => assert(kids.skip(1) =~= args),
        ExprView::NativeMethodCall { object: Some(_), args, .. } => assert(kids.skip(1) =~= args),
        ExprView::CallSpread { args, .. } => {
            assert forall|i: int| 0 <= i < args.len() implies kids.skip(1)[i] == element_expr(
                #[trigger] args[i],
            ) by {
                assert(kids.skip(1)[i] == kids[i + 1]);
            }
            assert(with_elements(args, kids.skip(1)) =~= args);
        },
        ExprView::ArraySpread(items) => assert(with_elements(items, kids) =~= items),
        ExprView::Object(props) => assert(with_fields(props, kids) =~= props),
        ExprView::ObjectSpread { parts } => assert(with_parts(parts, kids) =~= parts),
        _ => {},
    }
}

/// What an expression is put together from are its children.
pub proof fn lemma_children_of_rebuilt(e: ExprView, kids: Seq<ExprView>)
    requires
        kids.len() == children(e).len(),
        !(e is Closure),
    ensures
        children(with_children(e, kids)) == kids,
{
    let r = with_children(e, kids);
    match e {
        ExprView::CallSpread { args, .. } => {
            assert forall|i: int| 0 <= i < kids.len() implies #[trigger] children(r)[i]
                == kids[i] by {
                if i > 0 {
                    assert(children(r)[i] == element_expr(
                        with_elements(args, kids.skip(1))[i - 1],
                    ));
                    assert(kids.skip(1)[i - 1] == kids[i]);
                }
            }
        },
        _ => {},
    }
    assert(children(r) =~= kids);
}

fn rebuild_elements(v: &Vec<ArrayElement>, kids: Vec<Expr>) -> (r: Vec<ArrayElement>)
    requires
        kids@.len() == elements_view(v@).len(),
    ensures
        elements_view(r@) == with_elements(elements_view(v@), exprs_view(kids@)),
{
    let ghost all = kids@;
    let mut kids = kids;
    let mut out: Vec<ArrayElement> = Vec::new();
    let mut i: usize = 0;
    while i < v.len()
        invariant
            i <= v@.len(),
            all.len() == v@.len(),
            kids@ == all.skip(i as int),
            out@.len() == i,
            forall|j: int|
                0 <= j < i ==> (#[trigger] out@[j]).view() == with_element(
                    v@[j].view(),
                    all[j].view(),
                ),
        decreases v@.len() - i,
    {
        let e: Expr = kids.remove(0);
        match &v[i] {
            ArrayElement::Expr(_) => out.push(ArrayElement::Expr(e)),
            ArrayElement::Spread(_) => out.push(ArrayElement::Spread(e)),
        }
        assert(all.skip(i as int).remove(0) =~= all.skip(i + 1));
        i += 1;
    }
    assert(elements_view(out@) =~= with_elements(elements_view(v@), exprs_view(all)));
    out
}

fn rebuild_fields(v: &Vec<(String, Expr)>, kids: Vec<Expr>) -> (r: Vec<(String, Expr)>)
    requires
        kids@.len() == fields_view(v@).len(),
    ensures
        fields_view(r@) == with_fields(fields_view(v@), exprs_view(kids@)),
{
    let ghost all = kids@;
    let mut kids = kids;
    let mut out: Vec<(String, Expr)> = Vec::new();
    let mut i: usize = 0;
    while i < v.len()
        invariant
            i <= v@.len(),
            all.len() == v@.len(),
            kids@ == all.skip(i as int),
            out@.len() == i,
            forall|j: int|
                0 <= j < i ==> (#[trigger] out@[j]).0@ == v@[j].0@ && out@[j].1.view()
                    == all[j].view(),
        decreases v@.len() - i,
    {
        let e: Expr = kids.remove(0);
        out.push((v[i].0.clone(), e));
        assert(all.skip(i as int).remove(0) =~= all.skip(i + 1));
        i += 1;
    }
    assert(fields_view(out@) =~= with_fields(fields_view(v@), exprs_view(all)));
    out
}

fn rebuild_parts(v: &Vec<(Option<String>, Expr)>, kids: Vec<Expr>) -> (r: Vec<(Option<String>, Expr)>)
    requires
        kids@.len() == parts_view(v@).len(),
    ensures
        parts_view(r@) == with_parts(parts_view(v@), exprs_view(kids@)),
{
    let ghost all = kids@;
    let mut kids = kids;
    let mut out: Vec<(Option<String>, Expr)> = Vec::new();
    let mut i: usize = 0;
    while i < v.len()
        invariant
            i <= v@.len(),
            all.len() == v@.len(),
            kids@ == all.skip(i as int),
            out@.len() == i,
            forall|j: int|
                0 <= j < i ==> opt_str((#[trigger] out@[j]).0) == opt_str(v@[j].0)
                    && out@[j].1.view() == all[j].view(),
        decreases v@.len() - i,
    {
        let e: Expr = kids.remove(0);
        out.push((copy_opt_str(&v[i].0), e));
        assert(all.skip(i as int).remove(0) =~= all.skip(i + 1));
        i += 1;
    }
    assert(parts_view(out@) =~= with_parts(parts_view(v@), exprs_view(all)));
    out
}

/// Takes the first expression off the list.
fn first_of(kids: &mut Vec<Expr>) -> (r: Box<Expr>)
    requires
        old(kids)@.len() > 0,
    ensures
        r@ == exprs_view(old(kids)@)[0],
        final(kids)@ == old(kids)@.skip(1),
        exprs_view(final(kids)@) == exprs_view(old(kids)@).skip(1),
{
    let e: Expr = kids.remove(0);
    assert(kids@ =~= old(kids)@.skip(1));
    assert(exprs_view(kids@) =~= exprs_view(old(kids)@).skip(1));
    Box::new(e)
}

/// The node of `e` over new children, as many as it has.
#[verifier::rlimit(40)]
pub fn rebuild(e: &Expr, kids: Vec<Expr>) -> (r: Expr)
    requires
        kids@.len() == children(e@).len(),
    ensures
        r@ == with_children(e@, exprs_view(kids@)),
{
    let mut kids = kids;
    match e {
        Expr::LocalSet(id, _) => Expr::LocalSet(*id, first_of(&mut kids)),
        Expr::GlobalSet(id, _) => Expr::GlobalSet(*id, first_of(&mut kids)),
        Expr::Binary { op, .. } => {
            let left = first_of(&mut kids);
            Expr::Binary { op: *op, left, right: first_of(&mut kids) }
        },
        Expr::Logical { op, .. } => {
            let left = first_of(&mut kids);
            Expr::Logical { op: *op, left, right: first_of(&mut kids) }
        },
        Expr::Compare { op, .. } => {
            let left = first_of(&mut kids);
            Expr::Compare { op: *op, left, right: first_of(&mut kids) }
        },
        Expr::Unary { op, .. } => Expr::Unary { op: *op, operand: first_of(&mut kids) },
        Expr::Conditional { .. } => {
            let condition = first_of(&mut kids);
            let then_expr = first_of(&mut kids);
            Expr::Conditional { condition, then_expr, else_expr: first_of(&mut kids) }
        },
        Expr::Call { type_args, .. } => {
            let callee = first_of(&mut kids);
            Expr::Call { callee, args: kids, type_args: copy_types(type_args) }
        },
        Expr::CallSpread { args, .. } => {
            let callee = first_of(&mut kids);
            Expr::CallSpread { callee, args: rebuild_elements(args, kids) }
        },
        Expr::NativeMethodCall { module, class_name, object, method, .. } => {
            let object = match object {
                Some(_) => Some(first_of(&mut kids)),
                None => None,
            };
            Expr::NativeMethodCall {
                module: module.clone(),
                class_name: copy_opt_str(class_name),
                object,
                method: method.clone(),
                args: kids,
            }
        },
        Expr::New { class_name, .. } => Expr::New { class_name: class_name.clone(), args: kids },
        Expr::NewDynamic { .. } => {
            let callee = first_of(&mut kids);
            Expr::NewDynamic { callee, args: kids }
        },
        Expr::SuperCall(_) => Expr::SuperCall(kids),
        Expr::SuperMethodCall { method, .. } => {
            Expr::SuperMethodCall { method: method.clone(), args: kids }
        },
        Expr::PropertyGet { property, .. } => {
            Expr::PropertyGet { object: first_of(&mut kids), property: property.clone() }
        },
        Expr::PropertySet { property, .. } => {
            let object = first_of(&mut kids);
            Expr::PropertySet { object, property: property.clone(), value: first_of(&mut kids) }
        },
        Expr::IndexGet { .. } => {
            let object = first_of(&mut kids);
            Expr::IndexGet { object, index: first_of(&mut kids) }
        },
        Expr::IndexSet { .. } => {
            let object = first_of(&mut kids);
            let index = first_of(&mut kids);
            Expr::IndexSet { object, index, value: first_of(&mut kids) }
        },
        Expr::Array(_) => Expr::Array(kids),
        Expr::ArraySpread(items) => Expr::ArraySpread(rebuild_elements(items, kids)),
        Expr::Object(props) => Expr::Object(rebuild_fields(props, kids)),
        Expr::ObjectSpread { parts } => Expr::ObjectSpread { parts: rebuild_parts(parts, kids) },
        Expr::ArrayMap { .. } => {
            let array = first_of(&mut kids);
            Expr::ArrayMap { array, callback: first_of(&mut kids) }
        },
        Expr::LocalCall { op, id, .. } => Expr::LocalCall { op: *op, id: *id, args: kids },
        Expr::Intrinsic { op, .. } => Expr::Intrinsic { op: *op, args: kids },
        _ => e.clone(),
    }
}

} // verus!

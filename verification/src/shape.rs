//! Shapes of expressions that several passes look for.

use crate::hir::{Expr, LocalId};
use crate::model::ExprView;
use vstd::prelude::*;

verus! {

/// For `x.name` with a local variable `x`: the variable and the name.
pub open spec fn member_of_local(e: ExprView) -> Option<(LocalId, Seq<char>)> {
    match e {
        ExprView::PropertyGet { object, property } => match *object {
            ExprView::LocalGet(id) => Some((id, property)),
            _ => None,
        },
        _ => None,
    }
}

/// The variable that the expression reads, if it is just that.
pub fn local_of(e: &Expr) -> (r: Option<LocalId>)
    ensures
        r == match e@ {
            ExprView::LocalGet(id) => Some(id),
            _ => None,
        },
{
    match e {
        Expr::LocalGet(id) => Some(*id),
        _ => None,
    }
}

/// The variable and the name of `x.name`.
pub fn find_member_of_local(e: &Expr) -> (r: Option<(LocalId, &String)>)
    ensures
        (match r {
            Some(p) => Some((p.0, p.1@)),
            None => None,
        }) == member_of_local(e@),
{
    match e {
        Expr::PropertyGet { object, property } => match local_of(object) {
            Some(id) => Some((id, property)),
            None => None,
        },
        _ => None,
    }
}

/// Whether the expression is the integer.
pub fn is_integer(e: &Expr, n: i64) -> (r: bool)
    ensures
        r == (e@ == ExprView::Integer(n)),
{
    match e {
        Expr::Integer(k) => *k == n,
        _ => false,
    }
}

} // verus!

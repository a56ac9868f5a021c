//! Substitution of arguments for parameters and of a receiver for `this`.

use crate::hir::{Expr, LocalId, Stmt};
use crate::model::stmts_view;
use crate::rewrite::{
    exprs_map, rewrite_expr, rewrite_stmts, rewritten, rewritten_stmts, Pass, Rewrite,
};
use std::collections::HashMap;
use vstd::prelude::*;

verus! {

/// Puts the expressions of the map in place of the local variables, and renames
/// the variables that bindings, assignments and capture lists carry.
pub fn substitute_locals(e: &mut Expr, param_map: &HashMap<LocalId, Expr>)
    ensures
        final(e)@ == rewrite_expr(old(e)@, Rewrite::Locals(exprs_map(param_map@))),
{
    *e = rewritten(e, Pass::Locals(param_map));
}

/// Substitutes local variables in statements.
pub fn substitute_locals_in_stmts(stmts: &mut Vec<Stmt>, param_map: &HashMap<LocalId, Expr>)
    ensures
        stmts_view(final(stmts)@) == rewrite_stmts(
            stmts_view(old(stmts)@),
            Rewrite::Locals(exprs_map(param_map@)),
        ),
{
    *stmts = rewritten_stmts(stmts, Pass::Locals(param_map));
}

/// Puts the local variable in place of `this`. A closure that is reached reads
/// the variable from then on, so it captures the variable and not `this`.
pub fn substitute_this(e: &mut Expr, obj_id: LocalId)
    ensures
        final(e)@ == rewrite_expr(old(e)@, Rewrite::This(obj_id)),
{
    *e = rewritten(e, Pass::This(obj_id));
}

/// Puts the local variable in place of `this`, in statements.
pub fn substitute_this_in_stmts(stmts: &mut Vec<Stmt>, obj_id: LocalId)
    ensures
        stmts_view(final(stmts)@) == rewrite_stmts(
            stmts_view(old(stmts)@),
            Rewrite::This(obj_id),
        ),
{
    *stmts = rewritten_stmts(stmts, Pass::This(obj_id));
}

} // verus!

//! Which functions are inlined.

use crate::hir::{CatchClause, Expr, Function, LocalId, Param, Stmt, SwitchCase};
use crate::inline::scan::{any_in_stmts, own_ids, param_ids, stmts_have, NodeTest, Query};
use crate::model::{cases_view, params_view, stmts_view, CaseView, ExprView, FunctionView, StmtView};
use vstd::prelude::*;

verus! {

/// The largest number of statements in the body of a function that is inlined.
pub const MAX_INLINE_STMTS: usize = 10;

/// Whether the expression can be duplicated freely.
pub open spec fn is_trivial(e: ExprView) -> bool {
    match e {
        ExprView::Integer(_)
        | ExprView::Number(_)
        | ExprView::Bool(_)
        | ExprView::String(_)
        | ExprView::WtfString(_)
        | ExprView::Null
        | ExprView::Undefined
        | ExprView::LocalGet(_)
        | ExprView::GlobalGet(_) => true,
        _ => false,
    }
}

/// Whether the statements are lets, expressions and returns, at the top or in
/// the branches of conditionals.
pub open spec fn simple_flow(v: Seq<StmtView>) -> bool
    decreases v,
{
    forall|i: int| 0 <= i < v.len() ==> simple_stmt(#[trigger] v[i])
}

pub open spec fn simple_stmt(s: StmtView) -> bool
    decreases s,
{
    match s {
        StmtView::Let { .. } | StmtView::Expr(_) | StmtView::Return(_) => true,
        StmtView::If { then_branch, else_branch, .. } => simple_flow(then_branch)
            && match else_branch {
            Some(b) => simple_flow(b),
            None => true,
        },
        _ => false,
    }
}

/// The local ids that the statements bind, in source order. Closures bind their
/// own.
pub open spec fn bound_ids(v: Seq<StmtView>) -> Seq<LocalId>
    decreases v, v.len(),
{
    if v.len() == 0 {
        Seq::empty()
    } else {
        bound_ids(v.drop_last()) + bound_by(v.last())
    }
}

pub open spec fn bound_by_cases(v: Seq<CaseView>) -> Seq<LocalId>
    decreases v, v.len(),
{
    if v.len() == 0 {
        Seq::empty()
    } else {
        bound_by_cases(v.drop_last()) + bound_ids(v.last().body)
    }
}

/// The local ids that the statement binds, in source order.
pub open spec fn bound_by(s: StmtView) -> Seq<LocalId>
    decreases s, 0nat,
{
    match s {
        StmtView::Let { id, .. } => seq![id],
        StmtView::If { then_branch, else_branch, .. } => bound_ids(then_branch) + (
        match else_branch {
            Some(b) => bound_ids(b),
            None => Seq::empty(),
        }),
        StmtView::While { body, .. } => bound_ids(body),
        StmtView::DoWhile { body, .. } => bound_ids(body),
        StmtView::For { init, body, .. } => (match init {
            Some(i) => bound_by(*i),
            None => Seq::empty(),
        }) + bound_ids(body),
        StmtView::Labeled { body, .. } => bound_by(*body),
        StmtView::Try { body, catch, finally } => bound_ids(body) + (match catch {
            Some(c) => (match c.param {
                Some(p) => seq![p.0],
                None => Seq::empty(),
            }) + bound_ids(c.body),
            None => Seq::empty(),
        }) + (match finally {
            Some(b) => bound_ids(b),
            None => Seq::empty(),
        }),
        StmtView::Switch { cases, .. } => bound_by_cases(cases),
        _ => Seq::empty(),
    }
}

/// Whether the function can be inlined: it is not async, captures nothing, takes
/// no rest parameter, is short, has simple control flow, holds no closure over
/// its parameters, and does not call the parent class.
pub open spec fn inlinable(f: FunctionView) -> bool {
    &&& !f.is_async
    &&& f.captures.len() == 0
    &&& forall|i: int| 0 <= i < f.params.len() ==> !(#[trigger] f.params[i]).is_rest
    &&& f.body.len() <= MAX_INLINE_STMTS
    &&& simple_flow(f.body)
    &&& !stmts_have(f.body, NodeTest::Captures(param_ids(f.params)))
    &&& !stmts_have(f.body, NodeTest::CallsSuper)
}

/// Whether no statement, closures aside, is a switch, a try or a labeled one.
pub open spec fn plain_flow(v: Seq<StmtView>) -> bool
    decreases v,
{
    forall|i: int| 0 <= i < v.len() ==> plain_stmt(#[trigger] v[i])
}

pub open spec fn plain_stmt(s: StmtView) -> bool
    decreases s,
{
    match s {
        StmtView::If { then_branch, else_branch, .. } => plain_flow(then_branch)
            && match else_branch {
            Some(b) => plain_flow(b),
            None => true,
        },
        StmtView::While { body, .. } => plain_flow(body),
        StmtView::DoWhile { body, .. } => plain_flow(body),
        StmtView::For { init, body, .. } => (match init {
            Some(i) => plain_stmt(*i),
            None => true,
        }) && plain_flow(body),
        StmtView::Switch { .. } | StmtView::Try { .. } | StmtView::Labeled { .. } => false,
        _ => true,
    }
}

/// Whether the function refers to nothing but its own variables: no global, no
/// function of another module, no native method, no variable from outside.
pub open spec fn pure(f: FunctionView) -> bool {
    &&& plain_flow(f.body)
    &&& !stmts_have(f.body, NodeTest::Outside(own_ids(param_ids(f.params), f.body)))
}

/// Whether an expression is trivial: safe to duplicate.
pub fn is_trivial_expr(e: &Expr) -> (r: bool)
    ensures
        r == is_trivial(e@),
{
    match e {
        Expr::Integer(_)
        | Expr::Number(_)
        | Expr::Bool(_)
        | Expr::String(_)
        | Expr::WtfString(_)
        | Expr::Null
        | Expr::Undefined
        | Expr::LocalGet(_)
        | Expr::GlobalGet(_) => true,
        _ => false,
    }
}

/// Whether the statements have simple control flow.
pub fn has_simple_control_flow(v: &Vec<Stmt>) -> (r: bool)
    ensures
        r == simple_flow(stmts_view(v@)),
    decreases v,
{
    let ghost all = stmts_view(v@);
    let mut i: usize = 0;
    while i < v.len()
        invariant
            i <= v@.len(),
            all == stmts_view(v@),
            forall|j: int| 0 <= j < i ==> simple_stmt(#[trigger] all[j]),
        decreases v@.len() - i,
    {
        if !has_simple_form(&v[i]) {
            assert(!simple_stmt(all[i as int]));
            return false;
        }
        i += 1;
    }
    true
}

fn has_simple_form(s: &Stmt) -> (r: bool)
    ensures
        r == simple_stmt(s@),
    decreases s,
{
    match s {
        Stmt::Let { .. } | Stmt::Expr(_) | Stmt::Return(_) => true,
        Stmt::If { then_branch, else_branch, .. } => has_simple_control_flow(then_branch)
            && match else_branch {
            Some(b) => has_simple_control_flow(b),
            None => true,
        },
        _ => false,
    }
}

/// Collects the local ids that the statements bind, in source order.
pub fn collect_body_local_ids(v: &Vec<Stmt>) -> (r: Vec<LocalId>)
    ensures
        r@ == bound_ids(stmts_view(v@)),
    decreases v,
{
    let ghost all = stmts_view(v@);
    let mut out: Vec<LocalId> = Vec::new();
    let mut i: usize = 0;
    while i < v.len()
        invariant
            i <= v@.len(),
            all == stmts_view(v@),
            out@ == bound_ids(all.take(i as int)),
        decreases v@.len() - i,
    {
        let mut more: Vec<LocalId> = collect_from_stmt(&v[i]);
        out.append(&mut more);
        i += 1;
        assert(all.take(i as int).drop_last() =~= all.take(i - 1));
        assert(all.take(i as int).last() == v@[i - 1].view());
    }
    assert(all.take(i as int) =~= all);
    out
}

fn collect_from_cases(v: &Vec<SwitchCase>) -> (r: Vec<LocalId>)
    ensures
        r@ == bound_by_cases(cases_view(v@)),
    decreases v,
{
    let ghost all = cases_view(v@);
    let mut out: Vec<LocalId> = Vec::new();
    let mut i: usize = 0;
    while i < v.len()
        invariant
            i <= v@.len(),
            all == cases_view(v@),
            out@ == bound_by_cases(all.take(i as int)),
        decreases v@.len() - i,
    {
        let mut more: Vec<LocalId> = collect_body_local_ids(&v[i].body);
        out.append(&mut more);
        i += 1;
        assert(all.take(i as int).drop_last() =~= all.take(i - 1));
        assert(all.take(i as int).last() == v@[i - 1].view());
    }
    assert(all.take(i as int) =~= all);
    out
}

fn collect_from_catch(c: &CatchClause) -> (r: Vec<LocalId>)
    ensures
        r@ == (match c@.param {
            Some(p) => seq![p.0],
            None => Seq::empty(),
        }) + bound_ids(c@.body),
    decreases c,
{
    let mut out: Vec<LocalId> = Vec::new();
    match &c.param {
        Some(p) => out.push(p.0),
        None => {},
    }
    let mut more: Vec<LocalId> = collect_body_local_ids(&c.body);
    out.append(&mut more);
    assert(out@ =~= (match c@.param {
        Some(p) => seq![p.0],
        None => Seq::empty(),
    }) + bound_ids(c@.body));
    out
}

fn collect_from_stmt(s: &Stmt) -> (r: Vec<LocalId>)
    ensures
        r@ == bound_by(s@),
    decreases s,
{
    let mut out: Vec<LocalId> = Vec::new();
    match s {
        Stmt::Let { id, .. } => out.push(*id),
        Stmt::If { then_branch, else_branch, .. } => {
            let mut a: Vec<LocalId> = collect_body_local_ids(then_branch);
            out.append(&mut a);
            match else_branch {
                Some(b) => {
                    let mut c: Vec<LocalId> = collect_body_local_ids(b);
                    out.append(&mut c);
                },
                None => {},
            }
        },
        Stmt::While { body, .. } => {
            out = collect_body_local_ids(body);
        },
        Stmt::DoWhile { body, .. } => {
            out = collect_body_local_ids(body);
        },
        Stmt::For { init, body, .. } => {
            match init {
                Some(i) => {
                    out = collect_from_stmt(i);
                },
                None => {},
            }
            let mut b: Vec<LocalId> = collect_body_local_ids(body);
            out.append(&mut b);
        },
        Stmt::Labeled { body, .. } => {
            out = collect_from_stmt(body);
        },
        Stmt::Try { body, catch, finally } => {
            out = collect_body_local_ids(body);
            match catch {
                Some(c) => {
                    let mut a: Vec<LocalId> = collect_from_catch(c);
                    out.append(&mut a);
                },
                None => {},
            }
            match finally {
                Some(f) => {
                    let mut b: Vec<LocalId> = collect_body_local_ids(f);
                    out.append(&mut b);
                },
                None => {},
            }
        },
        Stmt::Switch { cases, .. } => {
            out = collect_from_cases(cases);
        },
        _ => {},
    }
    assert(out@ =~= bound_by(s@));
    out
}

fn ids_of_params(v: &Vec<Param>) -> (r: Vec<LocalId>)
    ensures
        r@ == param_ids(params_view(v@)),
{
    let mut out: Vec<LocalId> = Vec::new();
    let mut i: usize = 0;
    while i < v.len()
        invariant
            i <= v@.len(),
            out@.len() == i,
            forall|j: int| 0 <= j < i ==> #[trigger] out@[j] == v@[j].id,
        decreases v@.len() - i,
    {
        out.push(v[i].id);
        i += 1;
    }
    assert(out@ =~= param_ids(params_view(v@)));
    out
}

fn has_rest(v: &Vec<Param>) -> (r: bool)
    ensures
        r == !(forall|i: int|
            0 <= i < params_view(v@).len() ==> !(#[trigger] params_view(v@)[i]).is_rest),
{
    let ghost all = params_view(v@);
    let mut i: usize = 0;
    while i < v.len()
        invariant
            i <= v@.len(),
            all == params_view(v@),
            forall|j: int| 0 <= j < i ==> !(#[trigger] all[j]).is_rest,
        decreases v@.len() - i,
    {
        assert(all[i as int] == v@[i as int].view());
        if v[i].is_rest {
            assert(all[i as int].is_rest);
            return true;
        }
        i += 1;
    }
    false
}

/// Whether a body calls a constructor or a method of the parent class.
pub fn body_contains_super_call(v: &Vec<Stmt>) -> (r: bool)
    ensures
        r == stmts_have(stmts_view(v@), NodeTest::CallsSuper),
{
    any_in_stmts(v, Query::CallsSuper)
}

/// Whether a body holds a closure that captures one of the ids.
pub fn body_contains_closure_capturing(v: &Vec<Stmt>, ids: &Vec<LocalId>) -> (r: bool)
    ensures
        r == stmts_have(stmts_view(v@), NodeTest::Captures(ids@)),
{
    any_in_stmts(v, Query::Captures(ids))
}

/// Whether a function is suitable for inlining.
pub fn is_inlinable(f: &Function) -> (r: bool)
    ensures
        r == inlinable(f@),
{
    if f.is_async || f.captures.len() != 0 || has_rest(&f.params) {
        return false;
    }
    if f.body.len() > MAX_INLINE_STMTS || !has_simple_control_flow(&f.body) {
        return false;
    }
    let ids: Vec<LocalId> = ids_of_params(&f.params);
    !body_contains_closure_capturing(&f.body, &ids) && !body_contains_super_call(&f.body)
}

fn is_plain(v: &Vec<Stmt>) -> (r: bool)
    ensures
        r == plain_flow(stmts_view(v@)),
    decreases v,
{
    let ghost all = stmts_view(v@);
    let mut i: usize = 0;
    while i < v.len()
        invariant
            i <= v@.len(),
            all == stmts_view(v@),
            forall|j: int| 0 <= j < i ==> plain_stmt(#[trigger] all[j]),
        decreases v@.len() - i,
    {
        if !is_plain_stmt(&v[i]) {
            assert(!plain_stmt(all[i as int]));
            return false;
        }
        i += 1;
    }
    true
}

fn is_plain_stmt(s: &Stmt) -> (r: bool)
    ensures
        r == plain_stmt(s@),
    decreases s,
{
    match s {
        Stmt::If { then_branch, else_branch, .. } => is_plain(then_branch) && match else_branch {
            Some(b) => is_plain(b),
            None => true,
        },
        Stmt::While { body, .. } => is_plain(body),
        Stmt::DoWhile { body, .. } => is_plain(body),
        Stmt::For { init, body, .. } => (match init {
            Some(i) => is_plain_stmt(i),
            None => true,
        }) && is_plain(body),
        Stmt::Switch { .. } | Stmt::Try { .. } | Stmt::Labeled { .. } => false,
        _ => true,
    }
}

/// Whether a function refers to nothing but its own parameters and variables, so
/// that it can be inlined into module init.
pub fn is_pure_function(f: &Function) -> (r: bool)
    ensures
        r == pure(f@),
{
    let ids: Vec<LocalId> = ids_of_params(&f.params);
    is_plain(&f.body) && !any_in_stmts(&f.body, Query::Outside(&ids, &f.body))
}

} // verus!

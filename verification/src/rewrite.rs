//! Rewrites of HIR trees. A rewrite says which nodes it replaces, and how it changes
//! the ids that a node carries itself. It reaches every node: all children, closures
//! with their bodies, and statements of every form.

use crate::arkts::state::{names_of, states_map, StateBinding};
use crate::copy::{copy_ids, copy_opt_str};
use crate::hir::{CatchClause, Expr, FuncId, IntrinsicOp, LocalId, Param, Stmt, SwitchCase};
use crate::inline::scan::contains_id;
use crate::model::{
    cases_view, exprs_view, opt_expr_view, opt_stmts_view, params_view, stmts_view, CaseView,
    CatchView, ExprView, ParamView, StmtView,
};
use crate::rebuild::{rebuild, with_children};
use crate::shape::{find_member_of_local, member_of_local};
use crate::text::str_eq;
use crate::walk::{children, children_of, lemma_children_smaller};
use std::collections::{HashMap, HashSet};
use vstd::prelude::*;

verus! {

broadcast use vstd::std_specs::hash::group_hash_axioms;

/// A rewrite of expressions and statements.
pub enum Rewrite {
    /// Put expressions in place of local variables.
    Locals(Map<LocalId, ExprView>),
    /// Put a local variable in place of `this`.
    This(LocalId),
    /// Turn two-argument calls of the functions into integer multiplications.
    Imul(Set<FuncId>),
    /// Turn `x.set(v)`, for the state variables `x`, into `setText(name, v)`.
    State(Map<LocalId, Seq<char>>),
}

/// The id that a binding or an assignment of `id` has after substitution: that
/// of the variable that replaces it, if it is replaced by a variable.
pub open spec fn remap(id: LocalId, m: Map<LocalId, ExprView>) -> LocalId {
    if m.contains_key(id) {
        match m[id] {
            ExprView::LocalGet(new_id) => new_id,
            _ => id,
        }
    } else {
        id
    }
}

/// The capture list after substitution: a variable that a variable replaces is
/// renamed, one that another expression replaces is dropped.
pub open spec fn kept_captures(ids: Seq<LocalId>, m: Map<LocalId, ExprView>) -> Seq<LocalId>
    decreases ids.len(),
{
    if ids.len() == 0 {
        Seq::empty()
    } else {
        let front = kept_captures(ids.drop_last(), m);
        let id = ids.last();
        if m.contains_key(id) && !(m[id] is LocalGet) {
            front
        } else {
            front.push(remap(id, m))
        }
    }
}

/// The capture list with `id` in it.
pub open spec fn with_capture(ids: Seq<LocalId>, id: LocalId) -> Seq<LocalId> {
    if ids.contains(id) {
        ids
    } else {
        ids.push(id)
    }
}

/// The captures of a closure after the rewrite.
pub open spec fn new_captures(ids: Seq<LocalId>, r: Rewrite) -> Seq<LocalId> {
    match r {
        Rewrite::Locals(m) => kept_captures(ids, m),
        Rewrite::This(obj) => with_capture(ids, obj),
        _ => ids,
    }
}

/// The id that a binding has after the rewrite.
pub open spec fn rebound(id: LocalId, r: Rewrite) -> LocalId {
    match r {
        Rewrite::Locals(m) => remap(id, m),
        _ => id,
    }
}

/// Whether `e` calls one of the functions with two arguments.
pub open spec fn is_imul_call(e: ExprView, ids: Set<FuncId>) -> bool {
    match e {
        ExprView::Call { callee, args, .. } => args.len() == 2 && match *callee {
            ExprView::FuncRef(f) => ids.contains(f),
            _ => false,
        },
        _ => false,
    }
}

/// The name of the state variable that `e` sets, if it is a call `x.set(v)`.
pub open spec fn state_set(e: ExprView, reg: Map<LocalId, Seq<char>>) -> Option<Seq<char>> {
    match e {
        ExprView::Call { callee, args, .. } => match member_of_local(*callee) {
            Some((id, name)) => if args.len() == 1 && name == "set"@ && reg.contains_key(id) {
                Some(reg[id])
            } else {
                None
            },
            None => None,
        },
        _ => None,
    }
}

/// `setText(name, value)`.
pub open spec fn set_text(name: Seq<char>, value: ExprView) -> ExprView {
    ExprView::NativeMethodCall {
        module: "perry/ui"@,
        class_name: None,
        object: None,
        method: "setText"@,
        args: seq![ExprView::String(name), value],
    }
}

/// What the rewrite puts in place of the whole of `e`, without looking inside.
pub open spec fn replacement(e: ExprView, r: Rewrite) -> Option<ExprView> {
    match r {
        Rewrite::Locals(m) => match e {
            ExprView::LocalGet(id) => if m.contains_key(id) {
                Some(m[id])
            } else {
                None
            },
            _ => None,
        },
        Rewrite::This(obj) => match e {
            ExprView::This => Some(ExprView::LocalGet(obj)),
            _ => None,
        },
        Rewrite::Imul(_) => None,
        Rewrite::State(_) => None,
    }
}

/// The node with the ids that it carries itself rewritten.
pub open spec fn renamed(e: ExprView, r: Rewrite) -> ExprView {
    match r {
        Rewrite::Locals(m) => match e {
            ExprView::LocalSet(id, v) => ExprView::LocalSet(remap(id, m), v),
            ExprView::Update { id, op, prefix } => ExprView::Update {
                id: remap(id, m),
                op,
                prefix,
            },
            ExprView::LocalCall { op, id, args } => ExprView::LocalCall {
                op,
                id: remap(id, m),
                args,
            },
            _ => e,
        },
        _ => e,
    }
}

/// The node of `e` after the rewrite, over children that were rewritten: a call of a
/// multiplication becomes the built-in one, a call that sets a state variable becomes
/// `setText`, and any other node stays what it is.
pub open spec fn reshaped(e: ExprView, r: Rewrite, kids: Seq<ExprView>) -> ExprView {
    match r {
        Rewrite::Imul(ids) => if is_imul_call(e, ids) {
            ExprView::Intrinsic { op: IntrinsicOp::MathImul, args: kids.skip(1) }
        } else {
            with_children(e, kids)
        },
        Rewrite::State(reg) => match state_set(e, reg) {
            Some(name) => set_text(name, kids[1]),
            None => with_children(e, kids),
        },
        _ => with_children(renamed(e, r), kids),
    }
}

/// The expression after the rewrite.
pub open spec fn rewrite_expr(e: ExprView, r: Rewrite) -> ExprView
    decreases e, 1nat,
{
    if replacement(e, r) is Some {
        replacement(e, r)->0
    } else if e is Closure {
        rewrite_closure(e, r)
    } else {
        reshaped(e, r, rewrite_children(e, r))
    }
}

/// The children of the expression after the rewrite.
pub open spec fn rewrite_children(e: ExprView, r: Rewrite) -> Seq<ExprView>
    decreases e, 0nat,
{
    proof {
        assert forall|i: int| 0 <= i < children(e).len() implies decreases_to!(
            e => #[trigger] children(e)[i],
        ) by {
            lemma_children_smaller(e, i);
        }
    }
    Seq::new(
        children(e).len(),
        |i: int|
            if 0 <= i < children(e).len() {
                rewrite_expr(children(e)[i], r)
            } else {
                arbitrary()
            },
    )
}

/// The closure after the rewrite.
pub open spec fn rewrite_closure(e: ExprView, r: Rewrite) -> ExprView
    decreases e, 0nat,
{
    match e {
        ExprView::Closure {
            func_id,
            params,
            return_type,
            body,
            captures,
            mutable_captures,
            captures_this,
            enclosing_class,
            is_async,
        } => ExprView::Closure {
            func_id,
            params: rewrite_params(params, r),
            return_type,
            body: rewrite_stmts(body, r),
            captures: new_captures(captures, r),
            mutable_captures: match r {
                Rewrite::Locals(m) => kept_captures(mutable_captures, m),
                _ => mutable_captures,
            },
            captures_this: captures_this && !(r is This),
            enclosing_class,
            is_async,
        },
        _ => e,
    }
}

/// The parameters with their defaults rewritten.
pub open spec fn rewrite_params(v: Seq<ParamView>, r: Rewrite) -> Seq<ParamView>
    decreases v, 0nat,
{
    Seq::new(
        v.len(),
        |i: int|
            if 0 <= i < v.len() {
                ParamView {
                    id: v[i].id,
                    name: v[i].name,
                    ty: v[i].ty,
                    default: match v[i].default {
                        Some(e) => Some(rewrite_expr(e, r)),
                        None => None,
                    },
                    is_rest: v[i].is_rest,
                }
            } else {
                arbitrary()
            },
    )
}

/// The statements after the rewrite, one for one.
pub open spec fn rewrite_stmts(v: Seq<StmtView>, r: Rewrite) -> Seq<StmtView>
    decreases v, 0nat,
{
    Seq::new(
        v.len(),
        |i: int| if 0 <= i < v.len() { rewrite_stmt(v[i], r) } else { arbitrary() },
    )
}

/// The cases of a switch after the rewrite, one for one.
pub open spec fn rewrite_cases(v: Seq<CaseView>, r: Rewrite) -> Seq<CaseView>
    decreases v, 0nat,
{
    Seq::new(
        v.len(),
        |i: int|
            if 0 <= i < v.len() {
                CaseView {
                    test: match v[i].test {
                        Some(e) => Some(rewrite_expr(e, r)),
                        None => None,
                    },
                    body: rewrite_stmts(v[i].body, r),
                }
            } else {
                arbitrary()
            },
    )
}

/// The statement after the rewrite.
pub open spec fn rewrite_stmt(s: StmtView, r: Rewrite) -> StmtView
    decreases s, 0nat,
{
    match s {
        StmtView::Let { id, name, ty, mutable, init } => StmtView::Let {
            id: rebound(id, r),
            name,
            ty,
            mutable,
            init: match init {
                Some(e) => Some(rewrite_expr(e, r)),
                None => None,
            },
        },
        StmtView::Expr(e) => StmtView::Expr(rewrite_expr(e, r)),
        StmtView::Return(o) => StmtView::Return(
            match o {
                Some(e) => Some(rewrite_expr(e, r)),
                None => None,
            },
        ),
        StmtView::Throw(e) => StmtView::Throw(rewrite_expr(e, r)),
        StmtView::If { condition, then_branch, else_branch } => StmtView::If {
            condition: rewrite_expr(condition, r),
            then_branch: rewrite_stmts(then_branch, r),
            else_branch: match else_branch {
                Some(b) => Some(rewrite_stmts(b, r)),
                None => None,
            },
        },
        StmtView::While { condition, body } => StmtView::While {
            condition: rewrite_expr(condition, r),
            body: rewrite_stmts(body, r),
        },
        StmtView::DoWhile { body, condition } => StmtView::DoWhile {
            body: rewrite_stmts(body, r),
            condition: rewrite_expr(condition, r),
        },
        StmtView::For { init, condition, update, body } => StmtView::For {
            init: match init {
                Some(i) => Some(Box::new(rewrite_stmt(*i, r))),
                None => None,
            },
            condition: match condition {
                Some(c) => Some(rewrite_expr(c, r)),
                None => None,
            },
            update: match update {
                Some(u) => Some(rewrite_expr(u, r)),
                None => None,
            },
            body: rewrite_stmts(body, r),
        },
        StmtView::Labeled { label, body } => StmtView::Labeled {
            label,
            body: Box::new(rewrite_stmt(*body, r)),
        },
        StmtView::Try { body, catch, finally } => StmtView::Try {
            body: rewrite_stmts(body, r),
            catch: match catch {
                Some(c) => Some(
                    CatchView {
                        param: match c.param {
                            Some(p) => Some((rebound(p.0, r), p.1)),
                            None => None,
                        },
                        body: rewrite_stmts(c.body, r),
                    },
                ),
                None => None,
            },
            finally: match finally {
                Some(b) => Some(rewrite_stmts(b, r)),
                None => None,
            },
        },
        StmtView::Switch { discriminant, cases } => StmtView::Switch {
            discriminant: rewrite_expr(discriminant, r),
            cases: rewrite_cases(cases, r),
        },
        _ => s,
    }
}

// ---------------------------------------------------------------------------
// Execution
// ---------------------------------------------------------------------------

/// The models of the expressions of a substitution.
pub open spec fn exprs_map(m: Map<LocalId, Expr>) -> Map<LocalId, ExprView> {
    Map::new(|id: LocalId| m.contains_key(id), |id: LocalId| m[id].view())
}

/// A rewrite that can be carried out.
#[derive(Clone, Copy)]
pub enum Pass<'a> {
    Locals(&'a HashMap<LocalId, Expr>),
    This(LocalId),
    Imul(&'a HashSet<FuncId>),
    State(&'a HashMap<LocalId, StateBinding>),
}

impl<'a> Pass<'a> {
    pub open spec fn view(self) -> Rewrite {
        match self {
            Pass::Locals(m) => Rewrite::Locals(exprs_map(m@)),
            Pass::This(obj) => Rewrite::This(obj),
            Pass::Imul(ids) => Rewrite::Imul(ids@),
            Pass::State(reg) => Rewrite::State(names_of(states_map(reg@))),
        }
    }
}

/// The id that a binding or an assignment of `id` has after substitution.
pub fn new_id(id: LocalId, m: &HashMap<LocalId, Expr>) -> (r: LocalId)
    ensures
        r == remap(id, exprs_map(m@)),
{
    match m.get(&id) {
        Some(Expr::LocalGet(n)) => *n,
        _ => id,
    }
}

fn keep_captures(ids: &Vec<LocalId>, m: &HashMap<LocalId, Expr>) -> (r: Vec<LocalId>)
    ensures
        r@ == kept_captures(ids@, exprs_map(m@)),
{
    let mut out: Vec<LocalId> = Vec::new();
    let mut i: usize = 0;
    while i < ids.len()
        invariant
            i <= ids@.len(),
            out@ == kept_captures(ids@.take(i as int), exprs_map(m@)),
        decreases ids@.len() - i,
    {
        let id: LocalId = ids[i];
        match m.get(&id) {
            Some(Expr::LocalGet(n)) => out.push(*n),
            Some(_) => {},
            None => out.push(id),
        }
        i += 1;
        assert(ids@.take(i as int).drop_last() =~= ids@.take(i - 1));
    }
    assert(ids@.take(i as int) =~= ids@);
    out
}

fn add_capture(ids: &Vec<LocalId>, id: LocalId) -> (r: Vec<LocalId>)
    ensures
        r@ == with_capture(ids@, id),
{
    let mut out: Vec<LocalId> = copy_ids(ids);
    if !contains_id(ids, id) {
        out.push(id);
    }
    out
}

fn find_replacement(e: &Expr, p: Pass) -> (r: Option<Expr>)
    ensures
        opt_expr_view(r) == replacement(e@, p@),
{
    match p {
        Pass::Locals(m) => match e {
            Expr::LocalGet(id) => match m.get(id) {
                Some(x) => Some(x.clone()),
                None => None,
            },
            _ => None,
        },
        Pass::This(obj) => match e {
            Expr::This => Some(Expr::LocalGet(obj)),
            _ => None,
        },
        Pass::Imul(_) => None,
        Pass::State(_) => None,
    }
}

fn set_text_call(name: &String, value: Expr) -> (r: Expr)
    ensures
        r@ == set_text(name@, value@),
{
    let mut args: Vec<Expr> = Vec::new();
    args.push(Expr::String(name.clone()));
    args.push(value);
    assert(exprs_view(args@) =~= seq![ExprView::String(name@), value@]);
    Expr::NativeMethodCall {
        module: "perry/ui".to_string(),
        class_name: None,
        object: None,
        method: "setText".to_string(),
        args,
    }
}

fn find_state_set<'a>(e: &Expr, p: Pass<'a>) -> (r: Option<&'a String>)
    ensures
        (match r {
            Some(name) => Some(name@),
            None => None,
        }) == match p@ {
            Rewrite::State(reg) => state_set(e@, reg),
            _ => None,
        },
{
    match p {
        Pass::State(reg) => match e {
            Expr::Call { callee, args, .. } => {
                assert(exprs_view(args@).len() == args@.len());
                match find_member_of_local(callee) {
                    Some((id, name)) => {
                        if args.len() != 1 || !str_eq(name, "set") {
                            return None;
                        }
                        match reg.get(&id) {
                            Some(binding) => Some(&binding.synth_id),
                            None => None,
                        }
                    },
                    None => None,
                }
            },
            _ => None,
        },
        _ => None,
    }
}

/// Renames the ids that the node carries itself.
fn rename(e: &mut Expr, p: Pass)
    ensures
        final(e)@ == renamed(old(e)@, p@),
{
    match p {
        Pass::Locals(m) => match e {
            Expr::LocalSet(id, _) => {
                *id = new_id(*id, m);
            },
            Expr::Update { id, .. } => {
                *id = new_id(*id, m);
            },
            Expr::LocalCall { id, .. } => {
                *id = new_id(*id, m);
            },
            _ => {},
        },
        _ => {},
    }
}

fn calls_imul(e: &Expr, p: Pass) -> (r: bool)
    ensures
        r == (p@ is Imul && is_imul_call(e@, p@->Imul_0)),
{
    proof {
        reveal_with_fuel(Expr::view, 2);
        reveal_with_fuel(exprs_view, 2);
    }
    match p {
        Pass::Imul(ids) => match e {
            Expr::Call { callee, args, .. } => match &**callee {
                Expr::FuncRef(f) => args.len() == 2 && ids.contains(f),
                _ => false,
            },
            _ => false,
        },
        _ => false,
    }
}

/// The expression after the rewrite.
pub fn rewritten(e: &Expr, p: Pass) -> (r: Expr)
    ensures
        r@ == rewrite_expr(e@, p@),
    decreases e, 1nat,
{
    match find_replacement(e, p) {
        Some(x) => {
            return x;
        },
        None => {},
    }
    if matches!(e, Expr::Closure { .. }) {
        return rewritten_closure(e, p);
    }
    let kids = children_of(e);
    let mut out: Vec<Expr> = Vec::new();
    let mut i: usize = 0;
    while i < kids.len()
        invariant
            i <= kids@.len(),
            kids@.len() == children(e@).len(),
            forall|j: int| 0 <= j < kids@.len() ==> (#[trigger] kids@[j]).view() == children(e@)[j],
            forall|j: int| 0 <= j < kids@.len() ==> decreases_to!(*e => *(#[trigger] kids@[j])),
            out@.len() == i,
            forall|j: int|
                0 <= j < i ==> (#[trigger] out@[j]).view() == rewrite_expr(children(e@)[j], p@),
        decreases kids@.len() - i,
    {
        let k: &Expr = kids[i];
        out.push(rewritten(k, p));
        i += 1;
    }
    let ghost want = rewrite_children(e@, p@);
    assert(exprs_view(out@) =~= want);
    if calls_imul(e, p) {
        out.remove(0);
        assert(exprs_view(out@) =~= want.skip(1));
        return Expr::Intrinsic { op: IntrinsicOp::MathImul, args: out };
    }
    match find_state_set(e, p) {
        Some(name) => {
            let value: Expr = out.remove(1);
            assert(value@ == want[1]);
            return set_text_call(name, value);
        },
        None => {},
    }
    let mut x = rebuild(e, out);
    rename(&mut x, p);
    x
}

/// The closure after the rewrite.
fn rewritten_closure(e: &Expr, p: Pass) -> (r: Expr)
    requires
        e@ is Closure,
    ensures
        r@ == rewrite_closure(e@, p@),
    decreases e, 0nat,
{
    match e {
        Expr::Closure {
            func_id,
            params,
            return_type,
            body,
            captures,
            mutable_captures,
            captures_this,
            enclosing_class,
            is_async,
        } => {
            let (captures, mutable_captures): (Vec<LocalId>, Vec<LocalId>) = match p {
                Pass::Locals(m) => (keep_captures(captures, m), keep_captures(mutable_captures, m)),
                Pass::This(obj) => (add_capture(captures, obj), copy_ids(mutable_captures)),
                _ => (copy_ids(captures), copy_ids(mutable_captures)),
            };
            Expr::Closure {
                func_id: *func_id,
                params: rewritten_params(params, p),
                return_type: return_type.clone(),
                body: rewritten_stmts(body, p),
                captures,
                mutable_captures,
                captures_this: *captures_this && !matches!(p, Pass::This(_)),
                enclosing_class: copy_opt_str(enclosing_class),
                is_async: *is_async,
            }
        },
        _ => e.clone(),
    }
}

pub fn rewritten_params(v: &Vec<Param>, p: Pass) -> (r: Vec<Param>)
    ensures
        params_view(r@) == rewrite_params(params_view(v@), p@),
    decreases v, 0nat,
{
    let mut out: Vec<Param> = Vec::new();
    let mut i: usize = 0;
    while i < v.len()
        invariant
            i <= v@.len(),
            out@.len() == i,
            forall|j: int|
                0 <= j < i ==> (#[trigger] out@[j]).view() == rewrite_params(
                    params_view(v@),
                    p@,
                )[j],
        decreases v@.len() - i,
    {
        let x: &Param = &v[i];
        out.push(
            Param {
                id: x.id,
                name: x.name.clone(),
                ty: x.ty.clone(),
                default: rewritten_opt(&x.default, p),
                is_rest: x.is_rest,
            },
        );
        assert(params_view(v@)[i as int] == x@);
        i += 1;
    }
    assert(params_view(out@) =~= rewrite_params(params_view(v@), p@));
    out
}

/// The optional expression after the rewrite.
pub open spec fn rewrite_opt(o: Option<ExprView>, r: Rewrite) -> Option<ExprView> {
    match o {
        Some(e) => Some(rewrite_expr(e, r)),
        None => None,
    }
}

pub fn rewritten_opt(o: &Option<Expr>, p: Pass) -> (r: Option<Expr>)
    ensures
        opt_expr_view(r) == rewrite_opt(opt_expr_view(*o), p@),
    decreases o, 0nat,
{
    match o {
        Some(e) => Some(rewritten(e, p)),
        None => None,
    }
}

/// The statements after the rewrite, one for one.
pub fn rewritten_stmts(v: &Vec<Stmt>, p: Pass) -> (r: Vec<Stmt>)
    ensures
        stmts_view(r@) == rewrite_stmts(stmts_view(v@), p@),
    decreases v, 0nat,
{
    let mut out: Vec<Stmt> = Vec::new();
    let mut i: usize = 0;
    while i < v.len()
        invariant
            i <= v@.len(),
            out@.len() == i,
            forall|j: int|
                0 <= j < i ==> (#[trigger] out@[j]).view() == rewrite_stmt(v@[j].view(), p@),
        decreases v@.len() - i,
    {
        out.push(rewritten_stmt(&v[i], p));
        i += 1;
    }
    assert(stmts_view(out@) =~= rewrite_stmts(stmts_view(v@), p@));
    out
}

fn rewritten_opt_stmts(o: &Option<Vec<Stmt>>, p: Pass) -> (r: Option<Vec<Stmt>>)
    ensures
        opt_stmts_view(r) == match opt_stmts_view(*o) {
            Some(b) => Some(rewrite_stmts(b, p@)),
            None => None,
        },
    decreases o, 0nat,
{
    match o {
        Some(b) => Some(rewritten_stmts(b, p)),
        None => None,
    }
}

fn rewritten_cases(v: &Vec<SwitchCase>, p: Pass) -> (r: Vec<SwitchCase>)
    ensures
        cases_view(r@) == rewrite_cases(cases_view(v@), p@),
    decreases v, 0nat,
{
    let mut out: Vec<SwitchCase> = Vec::new();
    let mut i: usize = 0;
    while i < v.len()
        invariant
            i <= v@.len(),
            out@.len() == i,
            forall|j: int|
                0 <= j < i ==> (#[trigger] out@[j]).view() == rewrite_cases(
                    cases_view(v@),
                    p@,
                )[j],
        decreases v@.len() - i,
    {
        let x: &SwitchCase = &v[i];
        out.push(
            SwitchCase { test: rewritten_opt(&x.test, p), body: rewritten_stmts(&x.body, p) },
        );
        assert(cases_view(v@)[i as int] == x@);
        i += 1;
    }
    assert(cases_view(out@) =~= rewrite_cases(cases_view(v@), p@));
    out
}

fn rewritten_catch(c: &CatchClause, p: Pass) -> (r: CatchClause)
    ensures
        r@ == (CatchView {
            param: match c@.param {
                Some(x) => Some((rebound(x.0, p@), x.1)),
                None => None,
            },
            body: rewrite_stmts(c@.body, p@),
        }),
    decreases c, 0nat,
{
    let param: Option<(LocalId, String)> = match &c.param {
        Some(x) => Some((new_binding(x.0, p), x.1.clone())),
        None => None,
    };
    CatchClause { param, body: rewritten_stmts(&c.body, p) }
}

fn new_binding(id: LocalId, p: Pass) -> (r: LocalId)
    ensures
        r == rebound(id, p@),
{
    match p {
        Pass::Locals(m) => new_id(id, m),
        _ => id,
    }
}

/// The statement after the rewrite.
fn rewritten_stmt(s: &Stmt, p: Pass) -> (r: Stmt)
    ensures
        r@ == rewrite_stmt(s@, p@),
    decreases s, 0nat,
{
    match s {
        Stmt::Let { id, name, ty, mutable, init } => Stmt::Let {
            id: new_binding(*id, p),
            name: name.clone(),
            ty: ty.clone(),
            mutable: *mutable,
            init: rewritten_opt(init, p),
        },
        Stmt::Expr(e) => Stmt::Expr(rewritten(e, p)),
        Stmt::Return(o) => Stmt::Return(rewritten_opt(o, p)),
        Stmt::Throw(e) => Stmt::Throw(rewritten(e, p)),
        Stmt::If { condition, then_branch, else_branch } => Stmt::If {
            condition: rewritten(condition, p),
            then_branch: rewritten_stmts(then_branch, p),
            else_branch: rewritten_opt_stmts(else_branch, p),
        },
        Stmt::While { condition, body } => Stmt::While {
            condition: rewritten(condition, p),
            body: rewritten_stmts(body, p),
        },
        Stmt::DoWhile { body, condition } => Stmt::DoWhile {
            body: rewritten_stmts(body, p),
            condition: rewritten(condition, p),
        },
        Stmt::For { init, condition, update, body } => Stmt::For {
            init: match init {
                Some(i) => Some(Box::new(rewritten_stmt(i, p))),
                None => None,
            },
            condition: rewritten_opt(condition, p),
            update: rewritten_opt(update, p),
            body: rewritten_stmts(body, p),
        },
        Stmt::Labeled { label, body } => Stmt::Labeled {
            label: label.clone(),
            body: Box::new(rewritten_stmt(body, p)),
        },
        Stmt::Try { body, catch, finally } => Stmt::Try {
            body: rewritten_stmts(body, p),
            catch: match catch {
                Some(c) => Some(rewritten_catch(c, p)),
                None => None,
            },
            finally: rewritten_opt_stmts(finally, p),
        },
        Stmt::Switch { discriminant, cases } => Stmt::Switch {
            discriminant: rewritten(discriminant, p),
            cases: rewritten_cases(cases, p),
        },
        _ => s.clone(),
    }
}

} // verus!

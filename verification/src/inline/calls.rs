//! Inlining of all calls in expressions and statements.
//!
//! What a call turns into is searched for calls again, which need not come to an
//! end where functions call each other. `depth` bounds how often that is done
//! in a row; where it does not suffice, or where the ids run out, there is no
//! result.

use crate::hir::{Expr, IntrinsicOp, LocalId, Stmt, Type};
use crate::inline::expand::{
    append_stmts, full_call, simple_call, try_inline_call, try_inline_simple_call, types_map,
    Candidates, CandidatesView, Full, Simple,
};
use crate::model::{exprs_view, opt_expr_view, stmts_view, ExprView, StmtView, TypeView};
use crate::rebuild::{rebuild, with_children};
use crate::walk::{children, children_of, lemma_children_smaller};
use std::collections::HashMap;
use vstd::prelude::*;

verus! {

broadcast use vstd::std_specs::hash::group_hash_axioms;

// ---------------------------------------------------------------------------
// Expressions
// ---------------------------------------------------------------------------

/// An expression after inlining: statements to run first, the expression, and the
/// next free id.
pub struct ExprRun {
    pub hoisted: Seq<StmtView>,
    pub expr: ExprView,
    pub next: nat,
}

/// Several expressions after inlining.
pub struct KidsRun {
    pub hoisted: Seq<StmtView>,
    pub kids: Seq<ExprView>,
    pub next: nat,
}

/// Whether calls are looked for in the children of `e`.
pub open spec fn searched(e: ExprView) -> bool {
    match e {
        ExprView::Binary { .. }
        | ExprView::Logical { .. }
        | ExprView::Compare { .. }
        | ExprView::Unary { .. }
        | ExprView::Conditional { .. }
        | ExprView::Call { .. }
        | ExprView::CallSpread { .. }
        | ExprView::Array(_)
        | ExprView::ArraySpread(_)
        | ExprView::Object(_)
        | ExprView::ObjectSpread { .. }
        | ExprView::IndexGet { .. }
        | ExprView::IndexSet { .. }
        | ExprView::PropertyGet { .. }
        | ExprView::PropertySet { .. }
        | ExprView::LocalSet(_, _)
        | ExprView::NativeMethodCall { .. } => true,
        ExprView::Intrinsic { op, .. } => match op {
            IntrinsicOp::Uint8ArrayGet
            | IntrinsicOp::Uint8ArraySet
            | IntrinsicOp::Uint8ArrayLength
            | IntrinsicOp::Uint8ArrayNew => true,
            _ => false,
        },
        _ => false,
    }
}

/// The expression with its calls inlined. A call that can be inlined as an
/// expression is, and what comes out is searched again; otherwise the children
/// are searched, from left to right.
pub open spec fn inline_expr(
    e: ExprView,
    c: CandidatesView,
    types: Map<LocalId, Seq<char>>,
    n: nat,
    depth: nat,
) -> Option<ExprRun>
    decreases depth, e, 1nat, 0nat,
{
    match simple_call(e, c, types, n) {
        Some(simple) => if simple.next > u32::MAX || depth == 0 {
            None
        } else {
            match inline_expr(simple.result, c, types, simple.next, (depth - 1) as nat) {
                Some(run) => Some(ExprRun { hoisted: simple.setup + run.hoisted, ..run }),
                None => None,
            }
        },
        None => if searched(e) {
            match inline_children(e, children(e).len(), c, types, n, depth) {
                Some(run) => Some(
                    ExprRun {
                        hoisted: run.hoisted,
                        expr: with_children(e, run.kids),
                        next: run.next,
                    },
                ),
                None => None,
            }
        } else {
            Some(ExprRun { hoisted: Seq::empty(), expr: e, next: n })
        },
    }
}

/// The first `k` children of `e` with their calls inlined, from left to right.
pub open spec fn inline_children(
    e: ExprView,
    k: nat,
    c: CandidatesView,
    types: Map<LocalId, Seq<char>>,
    n: nat,
    depth: nat,
) -> Option<KidsRun>
    decreases depth, e, 0nat, k,
{
    if k == 0 || k > children(e).len() {
        Some(KidsRun { hoisted: Seq::empty(), kids: Seq::empty(), next: n })
    } else {
        proof {
            lemma_children_smaller(e, k - 1);
        }
        match inline_children(e, (k - 1) as nat, c, types, n, depth) {
            Some(front) => match inline_expr(children(e)[k - 1], c, types, front.next, depth) {
                Some(run) => Some(
                    KidsRun {
                        hoisted: front.hoisted + run.hoisted,
                        kids: front.kids.push(run.expr),
                        next: run.next,
                    },
                ),
                None => None,
            },
            None => None,
        }
    }
}

proof fn lemma_children_stop(
    e: ExprView,
    j: nat,
    k: nat,
    c: CandidatesView,
    types: Map<LocalId, Seq<char>>,
    n: nat,
    depth: nat,
)
    requires
        j <= k <= children(e).len(),
        inline_children(e, j, c, types, n, depth) is None,
    ensures
        inline_children(e, k, c, types, n, depth) is None,
    decreases k,
{
    if j < k {
        lemma_children_stop(e, j, (k - 1) as nat, c, types, n, depth);
    }
}

fn is_searched(e: &Expr) -> (r: bool)
    ensures
        r == searched(e@),
{
    match e {
        Expr::Binary { .. }
        | Expr::Logical { .. }
        | Expr::Compare { .. }
        | Expr::Unary { .. }
        | Expr::Conditional { .. }
        | Expr::Call { .. }
        | Expr::CallSpread { .. }
        | Expr::Array(_)
        | Expr::ArraySpread(_)
        | Expr::Object(_)
        | Expr::ObjectSpread { .. }
        | Expr::IndexGet { .. }
        | Expr::IndexSet { .. }
        | Expr::PropertyGet { .. }
        | Expr::PropertySet { .. }
        | Expr::LocalSet(_, _)
        | Expr::NativeMethodCall { .. } => true,
        Expr::Intrinsic { op, .. } => match op {
            IntrinsicOp::Uint8ArrayGet
            | IntrinsicOp::Uint8ArraySet
            | IntrinsicOp::Uint8ArrayLength
            | IntrinsicOp::Uint8ArrayNew => true,
            _ => false,
        },
        _ => false,
    }
}

/// An expression after inlining.
pub struct Inlined {
    pub hoisted: Vec<Stmt>,
    pub expr: Expr,
    pub next: LocalId,
}

impl Inlined {
    pub open spec fn view(self) -> ExprRun {
        ExprRun {
            hoisted: stmts_view(self.hoisted@),
            expr: self.expr@,
            next: self.next as nat,
        }
    }
}

pub open spec fn opt_inlined_view(o: Option<Inlined>) -> Option<ExprRun> {
    match o {
        Some(x) => Some(x.view()),
        None => None,
    }
}

/// Inlines the calls of functions and methods in an expression. The hoisted
/// statements must be run before the statement that the expression is in.
pub fn inline_calls_in_expr(
    e: &Expr,
    c: &Candidates,
    types: &HashMap<LocalId, String>,
    n: LocalId,
    depth: usize,
) -> (r: Option<Inlined>)
    ensures
        opt_inlined_view(r) == inline_expr(e@, c@, types_map(types@), n as nat, depth as nat),
    decreases depth, e,
{
    match try_inline_simple_call(e, c, types, n) {
        Simple::Inlined { setup, result, next } => {
            if depth == 0 {
                return None;
            }
            return match inline_calls_in_expr(&result, c, types, next, depth - 1) {
                Some(run) => {
                    let mut hoisted: Vec<Stmt> = setup;
                    append_stmts(&mut hoisted, run.hoisted);
                    Some(Inlined { hoisted, expr: run.expr, next: run.next })
                },
                None => None,
            };
        },
        Simple::OutOfIds => {
            return None;
        },
        Simple::Kept => {},
    }
    let mut hoisted: Vec<Stmt> = Vec::new();
    assert(stmts_view(hoisted@) =~= Seq::empty());
    if !is_searched(e) {
        return Some(Inlined { hoisted, expr: e.clone(), next: n });
    }
    let kids: Vec<&Expr> = children_of(e);
    let ghost ts = types_map(types@);
    let mut out: Vec<Expr> = Vec::new();
    let mut next: LocalId = n;
    let mut k: usize = 0;
    assert(exprs_view(out@) =~= Seq::empty());
    while k < kids.len()
        invariant
            k <= kids@.len(),
            ts == types_map(types@),
            simple_call(e@, c@, ts, n as nat) is None,
            searched(e@),
            kids@.len() == children(e@).len(),
            forall|j: int| 0 <= j < kids@.len() ==> (#[trigger] kids@[j]).view() == children(e@)[j],
            forall|j: int| 0 <= j < kids@.len() ==> decreases_to!(*e => *(#[trigger] kids@[j])),
            out@.len() == k,
            inline_children(e@, k as nat, c@, ts, n as nat, depth as nat) == Some(
                KidsRun {
                    hoisted: stmts_view(hoisted@),
                    kids: exprs_view(out@),
                    next: next as nat,
                },
            ),
        decreases kids@.len() - k,
    {
        let kid: &Expr = kids[k];
        match inline_calls_in_expr(kid, c, types, next, depth) {
            Some(run) => {
                let ghost before = exprs_view(out@);
                append_stmts(&mut hoisted, run.hoisted);
                out.push(run.expr);
                next = run.next;
                assert(exprs_view(out@) =~= before.push(run.expr@));
            },
            None => {
                proof {
                    lemma_children_stop(
                        e@,
                        (k + 1) as nat,
                        children(e@).len(),
                        c@,
                        ts,
                        n as nat,
                        depth as nat,
                    );
                }
                return None;
            },
        }
        k += 1;
    }
    Some(Inlined { hoisted, expr: rebuild(e, out), next })
}

// ---------------------------------------------------------------------------
// Statements
// ---------------------------------------------------------------------------

/// Statements after inlining: the statements, the classes of the variables that
/// are known then, and the next free id.
pub struct StmtRun {
    pub out: Seq<StmtView>,
    pub types: Map<LocalId, Seq<char>>,
    pub next: nat,
}

/// The classes that are known once the statement was seen: a let declares one by
/// its type, or by the object that it creates.
pub open spec fn noted(s: StmtView, types: Map<LocalId, Seq<char>>) -> Map<LocalId, Seq<char>> {
    match s {
        StmtView::Let { id, ty, init, .. } => {
            let declared = match ty {
                TypeView::Named(class) => types.insert(id, class),
                _ => types,
            };
            match created_class(init) {
                Some(class) => declared.insert(id, class),
                None => declared,
            }
        },
        _ => types,
    }
}

/// The class of the object that the expression creates.
pub open spec fn created_class(init: Option<ExprView>) -> Option<Seq<char>> {
    match init {
        Some(ExprView::New { class_name, .. }) => Some(class_name),
        _ => None,
    }
}

/// Whether the statement returns, at the top or in a branch.
pub open spec fn has_return(s: StmtView) -> bool
    decreases s,
{
    match s {
        StmtView::Return(_) => true,
        StmtView::If { then_branch, else_branch, .. } => any_returns(then_branch)
            || match else_branch {
            Some(b) => any_returns(b),
            None => false,
        },
        _ => false,
    }
}

pub open spec fn any_returns(v: Seq<StmtView>) -> bool
    decreases v,
{
    exists|i: int| 0 <= i < v.len() && has_return(#[trigger] v[i])
}

/// Whether a body returns before its end: before its last statement, or inside it.
pub open spec fn returns_early(v: Seq<StmtView>) -> bool {
    v.len() > 0 && (any_returns(v.drop_last()) || (!(v.last() is Return) && has_return(v.last())))
}

/// The body without the return at its end: a returned value is still computed.
pub open spec fn without_return(v: Seq<StmtView>) -> Seq<StmtView> {
    if v.len() == 0 {
        v
    } else {
        match v.last() {
            StmtView::Return(Some(e)) => v.drop_last().push(StmtView::Expr(e)),
            StmtView::Return(None) => v.drop_last(),
            _ => v,
        }
    }
}

/// The run that puts the statement, with its expression inlined, behind what the
/// expression needs.
pub open spec fn in_place(
    run: Option<ExprRun>,
    types: Map<LocalId, Seq<char>>,
    make: spec_fn(ExprView) -> StmtView,
) -> Option<StmtRun> {
    match run {
        Some(r) => Some(
            StmtRun { out: r.hoisted.push(make(r.expr)), types, next: r.next },
        ),
        None => None,
    }
}

/// The head of a loop after inlining. It is evaluated again and again, and no
/// statement can run before it each time: a head that needs one stays as it was.
pub open spec fn head_of(e: ExprView, run: ExprRun) -> ExprView {
    if run.hoisted.len() == 0 {
        run.expr
    } else {
        e
    }
}

/// A head of a loop with its calls inlined, and the next free id.
pub open spec fn inline_head(
    o: Option<ExprView>,
    c: CandidatesView,
    types: Map<LocalId, Seq<char>>,
    n: nat,
    depth: nat,
) -> Option<(Option<ExprView>, nat)> {
    match o {
        Some(e) => match inline_expr(e, c, types, n, depth) {
            Some(run) => Some((Some(head_of(e, run)), run.next)),
            None => None,
        },
        None => Some((None, n)),
    }
}

/// The statement with its calls inlined. A call that is a statement of its own
/// makes way for the body of what it calls, unless that returns early; statements
/// that an expression needs to have run go before the statement, unless it is the head
/// of a loop.
pub open spec fn inline_stmt(
    s: StmtView,
    c: CandidatesView,
    known: Map<LocalId, Seq<char>>,
    n: nat,
    depth: nat,
) -> Option<StmtRun>
    decreases s, 0nat,
{
    let types = noted(s, known);
    match s {
        StmtView::Expr(e) => match full_call(e, c, types, n) {
            Some((body, n1)) => if n1 > u32::MAX {
                None
            } else if returns_early(body) {
                in_place(inline_expr(e, c, types, n1, depth), types, |x: ExprView| StmtView::Expr(x))
            } else {
                Some(StmtRun { out: without_return(body), types, next: n1 })
            },
            None => in_place(
                inline_expr(e, c, types, n, depth),
                types,
                |x: ExprView| StmtView::Expr(x),
            ),
        },
        StmtView::Let { id, name, ty, mutable, init: Some(e) } => in_place(
            inline_expr(e, c, types, n, depth),
            types,
            |x: ExprView| StmtView::Let { id, name, ty, mutable, init: Some(x) },
        ),
        StmtView::Return(Some(e)) => in_place(
            inline_expr(e, c, types, n, depth),
            types,
            |x: ExprView| StmtView::Return(Some(x)),
        ),
        StmtView::Throw(e) => in_place(
            inline_expr(e, c, types, n, depth),
            types,
            |x: ExprView| StmtView::Throw(x),
        ),
        StmtView::If { condition, then_branch, else_branch } => match inline_expr(
            condition,
            c,
            types,
            n,
            depth,
        ) {
            Some(cond) => match inline_stmts(then_branch, c, types, cond.next, depth) {
                Some(yes) => match else_branch {
                    Some(b) => match inline_stmts(b, c, yes.types, yes.next, depth) {
                        Some(no) => Some(
                            StmtRun {
                                out: cond.hoisted.push(
                                    StmtView::If {
                                        condition: cond.expr,
                                        then_branch: yes.out,
                                        else_branch: Some(no.out),
                                    },
                                ),
                                types: no.types,
                                next: no.next,
                            },
                        ),
                        None => None,
                    },
                    None => Some(
                        StmtRun {
                            out: cond.hoisted.push(
                                StmtView::If {
                                    condition: cond.expr,
                                    then_branch: yes.out,
                                    else_branch: None,
                                },
                            ),
                            types: yes.types,
                            next: yes.next,
                        },
                    ),
                },
                None => None,
            },
            None => None,
        },
        StmtView::While { condition, body } => match inline_expr(condition, c, types, n, depth) {
            Some(cond) => match inline_stmts(body, c, types, cond.next, depth) {
                Some(run) => Some(
                    StmtRun {
                        out: seq![
                            StmtView::While { condition: head_of(condition, cond), body: run.out },
                        ],
                        types: run.types,
                        next: run.next,
                    },
                ),
                None => None,
            },
            None => None,
        },
        StmtView::For { init, condition, update, body } => {
            let first = match init {
                Some(i) => match inline_stmt(*i, c, types, n, depth) {
                    Some(run) => Some(
                        StmtRun {
                            out: seq![if run.out.len() == 1 { run.out[0] } else { *i }],
                            ..run
                        },
                    ),
                    None => None,
                },
                None => Some(StmtRun { out: Seq::empty(), types, next: n }),
            };
            match first {
                Some(start) => match inline_head(condition, c, start.types, start.next, depth) {
                    Some((cond, n1)) => match inline_head(update, c, start.types, n1, depth) {
                        Some((upd, n2)) => match inline_stmts(body, c, start.types, n2, depth) {
                            Some(run) => Some(
                                StmtRun {
                                    out: seq![
                                        StmtView::For {
                                            init: match init {
                                                Some(_) => Some(Box::new(start.out[0])),
                                                None => None,
                                            },
                                            condition: cond,
                                            update: upd,
                                            body: run.out,
                                        },
                                    ],
                                    types: run.types,
                                    next: run.next,
                                },
                            ),
                            None => None,
                        },
                        None => None,
                    },
                    None => None,
                },
                None => None,
            }
        },
        _ => Some(StmtRun { out: seq![s], types, next: n }),
    }
}

/// The statements with their calls inlined, one after the other.
pub open spec fn inline_stmts(
    v: Seq<StmtView>,
    c: CandidatesView,
    types: Map<LocalId, Seq<char>>,
    n: nat,
    depth: nat,
) -> Option<StmtRun>
    decreases v, v.len() + 1,
{
    inline_first(v, v.len(), c, types, n, depth)
}

/// The first `k` statements with their calls inlined.
pub open spec fn inline_first(
    v: Seq<StmtView>,
    k: nat,
    c: CandidatesView,
    types: Map<LocalId, Seq<char>>,
    n: nat,
    depth: nat,
) -> Option<StmtRun>
    decreases v, k,
{
    if k == 0 || k > v.len() {
        Some(StmtRun { out: Seq::empty(), types, next: n })
    } else {
        match inline_first(v, (k - 1) as nat, c, types, n, depth) {
            Some(front) => match inline_stmt(v[k - 1], c, front.types, front.next, depth) {
                Some(one) => Some(StmtRun { out: front.out + one.out, ..one }),
                None => None,
            },
            None => None,
        }
    }
}

proof fn lemma_first_stop(
    v: Seq<StmtView>,
    j: nat,
    k: nat,
    c: CandidatesView,
    types: Map<LocalId, Seq<char>>,
    n: nat,
    depth: nat,
)
    requires
        j <= k <= v.len(),
        inline_first(v, j, c, types, n, depth) is None,
    ensures
        inline_first(v, k, c, types, n, depth) is None,
    decreases k,
{
    if j < k {
        lemma_first_stop(v, j, (k - 1) as nat, c, types, n, depth);
    }
}

proof fn lemma_types_map_insert(m: Map<LocalId, String>, id: LocalId, s: String)
    ensures
        types_map(m.insert(id, s)) == types_map(m).insert(id, s@),
{
    assert(types_map(m.insert(id, s)) =~= types_map(m).insert(id, s@));
}

fn class_created(init: &Option<Expr>) -> (r: Option<&String>)
    ensures
        (match r {
            Some(s) => Some(s@),
            None => None,
        }) == created_class(opt_expr_view(*init)),
{
    match init {
        Some(Expr::New { class_name, .. }) => Some(class_name),
        _ => None,
    }
}

/// Notes the class of the variable that the statement declares.
fn note_types(s: &Stmt, types: &mut HashMap<LocalId, String>)
    ensures
        types_map(final(types)@) == noted(s@, types_map(old(types)@)),
{
    match s {
        Stmt::Let { id, ty, init, .. } => {
            match ty {
                Type::Named(class) => {
                    let class: String = class.clone();
                    proof {
                        lemma_types_map_insert(types@, *id, class);
                    }
                    types.insert(*id, class);
                },
                _ => {},
            }
            match class_created(init) {
                Some(class) => {
                    let class: String = class.clone();
                    proof {
                        lemma_types_map_insert(types@, *id, class);
                    }
                    types.insert(*id, class);
                },
                None => {},
            }
        },
        _ => {},
    }
}

fn stmt_has_return(s: &Stmt) -> (r: bool)
    ensures
        r == has_return(s@),
    decreases s,
{
    match s {
        Stmt::Return(_) => true,
        Stmt::If { then_branch, else_branch, .. } => first_return(then_branch, then_branch.len())
            || match else_branch {
            Some(b) => first_return(b, b.len()),
            None => false,
        },
        _ => false,
    }
}

/// Whether one of the first `k` statements returns.
fn first_return(v: &Vec<Stmt>, k: usize) -> (r: bool)
    requires
        k <= v@.len(),
    ensures
        r == any_returns(stmts_view(v@).take(k as int)),
        k == v@.len() ==> r == any_returns(stmts_view(v@)),
    decreases v,
{
    let ghost all = stmts_view(v@).take(k as int);
    assert(k == v@.len() ==> all =~= stmts_view(v@));
    let mut i: usize = 0;
    while i < k
        invariant
            i <= k <= v@.len(),
            all == stmts_view(v@).take(k as int),
            k == v@.len() ==> all == stmts_view(v@),
            forall|j: int| 0 <= j < i ==> !has_return(#[trigger] all[j]),
        decreases k - i,
    {
        assert(all[i as int] == v@[i as int].view());
        if stmt_has_return(&v[i]) {
            assert(has_return(all[i as int]));
            return true;
        }
        i += 1;
    }
    false
}

fn does_return_early(v: &Vec<Stmt>) -> (r: bool)
    ensures
        r == returns_early(stmts_view(v@)),
{
    if v.len() == 0 {
        return false;
    }
    assert(stmts_view(v@).drop_last() =~= stmts_view(v@).take(v@.len() - 1));
    assert(stmts_view(v@).last() == v@[v@.len() - 1].view());
    if first_return(v, v.len() - 1) {
        return true;
    }
    match &v[v.len() - 1] {
        Stmt::Return(_) => false,
        s => stmt_has_return(s),
    }
}

/// Takes the return off the end of a body, and keeps the value that it computes.
fn drop_return(v: &mut Vec<Stmt>)
    ensures
        stmts_view(final(v)@) == without_return(stmts_view(old(v)@)),
{
    let ghost all = stmts_view(v@);
    match v.pop() {
        Some(last) => {
            assert(stmts_view(v@) =~= all.drop_last());
            assert(all.last() == last@);
            match last {
                Stmt::Return(Some(e)) => {
                    v.push(Stmt::Expr(e));
                    assert(stmts_view(v@) =~= all.drop_last().push(StmtView::Expr(e@)));
                },
                Stmt::Return(None) => {},
                other => {
                    v.push(other);
                    assert(stmts_view(v@) =~= all);
                },
            }
        },
        None => {},
    }
}

/// One statement after inlining.
pub struct StmtOut {
    pub out: Vec<Stmt>,
    pub next: LocalId,
}

impl StmtOut {
    /// The run with the classes that are known after it.
    pub open spec fn run(self, types: Map<LocalId, Seq<char>>) -> StmtRun {
        StmtRun {
            out: stmts_view(self.out@),
            types,
            next: self.next as nat,
        }
    }
}

pub open spec fn opt_run(o: Option<StmtOut>, types: Map<LocalId, Seq<char>>) -> Option<StmtRun> {
    match o {
        Some(x) => Some(x.run(types)),
        None => None,
    }
}

/// Puts the statement behind the hoisted ones.
fn place(hoisted: Vec<Stmt>, s: Stmt, next: LocalId) -> (r: StmtOut)
    ensures
        stmts_view(r.out@) == stmts_view(hoisted@).push(s@),
        r.next == next,
{
    let mut out: Vec<Stmt> = hoisted;
    out.push(s);
    assert(stmts_view(out@) =~= stmts_view(hoisted@).push(s@));
    StmtOut { out, next }
}

/// A list of the one statement.
fn alone(s: Stmt, next: LocalId) -> (r: StmtOut)
    ensures
        stmts_view(r.out@) == seq![s@],
        r.next == next,
{
    let hoisted: Vec<Stmt> = Vec::new();
    assert(stmts_view(hoisted@) =~= Seq::empty());
    let r = place(hoisted, s, next);
    assert(stmts_view(r.out@) =~= seq![s@]);
    r
}

/// Inlines the calls in a head of a loop.
fn inline_calls_in_head(
    e: &Expr,
    c: &Candidates,
    types: &HashMap<LocalId, String>,
    n: LocalId,
    depth: usize,
) -> (r: Option<(Expr, LocalId)>)
    ensures
        (match r {
            Some((x, next)) => Some((Some(x@), next as nat)),
            None => None,
        }) == inline_head(Some(e@), c@, types_map(types@), n as nat, depth as nat),
{
    match inline_calls_in_expr(e, c, types, n, depth) {
        Some(run) => {
            assert(stmts_view(run.hoisted@).len() == run.hoisted@.len());
            if run.hoisted.len() == 0 {
                Some((run.expr, run.next))
            } else {
                Some((e.clone(), run.next))
            }
        },
        None => None,
    }
}

fn inline_calls_in_opt(
    o: &Option<Expr>,
    c: &Candidates,
    types: &HashMap<LocalId, String>,
    n: LocalId,
    depth: usize,
) -> (r: Option<(Option<Expr>, LocalId)>)
    ensures
        (match r {
            Some((e, next)) => Some((opt_expr_view(e), next as nat)),
            None => None,
        }) == inline_head(opt_expr_view(*o), c@, types_map(types@), n as nat, depth as nat),
{
    match o {
        Some(e) => match inline_calls_in_head(e, c, types, n, depth) {
            Some((x, next)) => Some((Some(x), next)),
            None => None,
        },
        None => Some((None, n)),
    }
}

/// Inlines the calls in a statement whose expression is a call of its own.
fn inline_call_stmt(
    e: &Expr,
    c: &Candidates,
    types: &HashMap<LocalId, String>,
    n: LocalId,
    depth: usize,
) -> (r: Option<StmtOut>)
    ensures
        opt_run(r, types_map(types@)) == inline_stmt(
            StmtView::Expr(e@),
            c@,
            types_map(types@),
            n as nat,
            depth as nat,
        ),
{
    let mut start: LocalId = n;
    match try_inline_call(e, c, types, n) {
        Full::Inlined { stmts, next } => {
            if !does_return_early(&stmts) {
                let mut out: Vec<Stmt> = stmts;
                drop_return(&mut out);
                return Some(StmtOut { out, next });
            }
            start = next;
        },
        Full::OutOfIds => {
            return None;
        },
        Full::Kept => {},
    }
    match inline_calls_in_expr(e, c, types, start, depth) {
        Some(run) => Some(place(run.hoisted, Stmt::Expr(run.expr), run.next)),
        None => None,
    }
}

fn inline_calls_in_if(
    s: &Stmt,
    c: &Candidates,
    types: &mut HashMap<LocalId, String>,
    n: LocalId,
    depth: usize,
) -> (r: Option<StmtOut>)
    requires
        s is If,
    ensures
        match r {
            Some(x) => inline_stmt(s@, c@, types_map(old(types)@), n as nat, depth as nat) == Some(
                x.run(types_map(final(types)@)),
            ),
            None => inline_stmt(s@, c@, types_map(old(types)@), n as nat, depth as nat) is None,
        },
    decreases s, 0nat,
{
    match s {
        Stmt::If { condition, then_branch, else_branch } => {
            let cond = match inline_calls_in_expr(condition, c, types, n, depth) {
                Some(run) => run,
                None => {
                    return None;
                },
            };
            let (yes, n1) = match inline_calls_in_stmts(then_branch, c, types, cond.next, depth) {
                Some(run) => run,
                None => {
                    return None;
                },
            };
            match else_branch {
                Some(b) => match inline_calls_in_stmts(b, c, types, n1, depth) {
                    Some((no, n2)) => {
                        let x = Stmt::If {
                            condition: cond.expr,
                            then_branch: yes,
                            else_branch: Some(no),
                        };
                        Some(place(cond.hoisted, x, n2))
                    },
                    None => None,
                },
                None => {
                    let x = Stmt::If { condition: cond.expr, then_branch: yes, else_branch: None };
                    Some(place(cond.hoisted, x, n1))
                },
            }
        },
        _ => None,
    }
}

fn inline_calls_in_while(
    s: &Stmt,
    c: &Candidates,
    types: &mut HashMap<LocalId, String>,
    n: LocalId,
    depth: usize,
) -> (r: Option<StmtOut>)
    requires
        s is While,
    ensures
        match r {
            Some(x) => inline_stmt(s@, c@, types_map(old(types)@), n as nat, depth as nat) == Some(
                x.run(types_map(final(types)@)),
            ),
            None => inline_stmt(s@, c@, types_map(old(types)@), n as nat, depth as nat) is None,
        },
    decreases s, 0nat,
{
    match s {
        Stmt::While { condition, body } => {
            let (cond, n1) = match inline_calls_in_head(condition, c, types, n, depth) {
                Some(run) => run,
                None => {
                    return None;
                },
            };
            match inline_calls_in_stmts(body, c, types, n1, depth) {
                Some((b, n2)) => Some(alone(Stmt::While { condition: cond, body: b }, n2)),
                None => None,
            }
        },
        _ => None,
    }
}

fn inline_calls_in_for(
    s: &Stmt,
    c: &Candidates,
    types: &mut HashMap<LocalId, String>,
    n: LocalId,
    depth: usize,
) -> (r: Option<StmtOut>)
    requires
        s is For,
    ensures
        match r {
            Some(x) => inline_stmt(s@, c@, types_map(old(types)@), n as nat, depth as nat) == Some(
                x.run(types_map(final(types)@)),
            ),
            None => inline_stmt(s@, c@, types_map(old(types)@), n as nat, depth as nat) is None,
        },
    decreases s, 0nat,
{
    match s {
        Stmt::For { init, condition, update, body } => {
            let mut start: LocalId = n;
            let first: Option<Box<Stmt>> = match init {
                Some(i) => match inline_calls_in_stmt(i, c, types, n, depth) {
                    Some(run) => {
                        start = run.next;
                        let mut out: Vec<Stmt> = run.out;
                        let ghost all = stmts_view(out@);
                        if out.len() == 1 {
                            let x: Stmt = out.remove(0);
                            assert(x@ == all[0]);
                            Some(Box::new(x))
                        } else {
                            let copy: Stmt = (**i).clone();
                            Some(Box::new(copy))
                        }
                    },
                    None => {
                        return None;
                    },
                },
                None => None,
            };
            let (cond, n1) = match inline_calls_in_opt(condition, c, types, start, depth) {
                Some(run) => run,
                None => {
                    return None;
                },
            };
            let (upd, n2) = match inline_calls_in_opt(update, c, types, n1, depth) {
                Some(run) => run,
                None => {
                    return None;
                },
            };
            match inline_calls_in_stmts(body, c, types, n2, depth) {
                Some((b, n3)) => {
                    let x = Stmt::For { init: first, condition: cond, update: upd, body: b };
                    Some(alone(x, n3))
                },
                None => None,
            }
        },
        _ => None,
    }
}

/// Inlines the calls in a statement.
pub fn inline_calls_in_stmt(
    s: &Stmt,
    c: &Candidates,
    types: &mut HashMap<LocalId, String>,
    n: LocalId,
    depth: usize,
) -> (r: Option<StmtOut>)
    ensures
        match r {
            Some(x) => inline_stmt(s@, c@, types_map(old(types)@), n as nat, depth as nat) == Some(
                x.run(types_map(final(types)@)),
            ),
            None => inline_stmt(s@, c@, types_map(old(types)@), n as nat, depth as nat) is None,
        },
    decreases s, 1nat,
{
    note_types(s, types);
    let ghost ts = types_map(types@);
    match s {
        Stmt::Expr(e) => inline_call_stmt(e, c, types, n, depth),
        Stmt::Let { id, name, ty, mutable, init: Some(e) } => match inline_calls_in_expr(
            e,
            c,
            types,
            n,
            depth,
        ) {
            Some(run) => {
                let x = Stmt::Let {
                    id: *id,
                    name: name.clone(),
                    ty: ty.clone(),
                    mutable: *mutable,
                    init: Some(run.expr),
                };
                Some(place(run.hoisted, x, run.next))
            },
            None => None,
        },
        Stmt::Return(Some(e)) => match inline_calls_in_expr(e, c, types, n, depth) {
            Some(run) => Some(place(run.hoisted, Stmt::Return(Some(run.expr)), run.next)),
            None => None,
        },
        Stmt::Throw(e) => match inline_calls_in_expr(e, c, types, n, depth) {
            Some(run) => Some(place(run.hoisted, Stmt::Throw(run.expr), run.next)),
            None => None,
        },
        Stmt::If { .. } => inline_calls_in_if(s, c, types, n, depth),
        Stmt::While { .. } => inline_calls_in_while(s, c, types, n, depth),
        Stmt::For { .. } => inline_calls_in_for(s, c, types, n, depth),
        _ => {
            let copy: Stmt = s.clone();
            Some(alone(copy, n))
        },
    }
}

/// Inlines the calls of functions and methods in a list of statements. `types`
/// has the classes of the variables that are known. There is no result where
/// `depth` does not suffice or the ids run out.
pub fn inline_calls_in_stmts(
    v: &Vec<Stmt>,
    c: &Candidates,
    types: &mut HashMap<LocalId, String>,
    n: LocalId,
    depth: usize,
) -> (r: Option<(Vec<Stmt>, LocalId)>)
    ensures
        ({
            let want = inline_stmts(
                stmts_view(v@),
                c@,
                types_map(old(types)@),
                n as nat,
                depth as nat,
            );
            match r {
                Some((out, next)) => want matches Some(run) && run.out == stmts_view(out@)
                    && run.types == types_map(final(types)@) && run.next == next,
                None => want is None,
            }
        }),
    decreases v, 0nat,
{
    let ghost all = stmts_view(v@);
    let ghost ts = types_map(types@);
    let mut out: Vec<Stmt> = Vec::new();
    let mut next: LocalId = n;
    let mut k: usize = 0;
    assert(stmts_view(out@) =~= Seq::empty());
    while k < v.len()
        invariant
            k <= v@.len(),
            all == stmts_view(v@),
            all.len() == v@.len(),
            ts == types_map(old(types)@),
            inline_first(all, k as nat, c@, ts, n as nat, depth as nat) == Some(
                StmtRun {
                    out: stmts_view(out@),
                    types: types_map(types@),
                    next: next as nat,
                },
            ),
        decreases v@.len() - k,
    {
        let s: &Stmt = &v[k];
        assert(all[k as int] == s@);
        match inline_calls_in_stmt(s, c, types, next, depth) {
            Some(run) => {
                append_stmts(&mut out, run.out);
                next = run.next;
            },
            None => {
                proof {
                    lemma_first_stop(
                        all,
                        (k + 1) as nat,
                        all.len(),
                        c@,
                        ts,
                        n as nat,
                        depth as nat,
                    );
                }
                return None;
            },
        }
        k += 1;
    }
    Some((out, next))
}

} // verus!

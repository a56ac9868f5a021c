//! Questions about whole trees: does some node of a body have a property, and
//! which local ids does it name.

use crate::arkts::occurs::occurs;
use crate::hir::{CatchClause, Expr, FuncId, LocalId, Param, Stmt, SwitchCase};
use crate::model::{cases_view, params_view, stmts_view, CaseView, ExprView, ParamView, StmtView};
use crate::rewrite::{is_imul_call, state_set};
use crate::walk::{children, children_of, lemma_children_smaller};
use vstd::prelude::*;

verus! {

/// A property of a single node, apart from its children.
pub enum NodeTest {
    /// Calls a constructor or a method of the parent class.
    CallsSuper,
    /// Is a closure that captures one of the ids.
    Captures(Seq<LocalId>),
    /// Refers to something outside a function whose own variables are the ids.
    Outside(Set<LocalId>),
    /// Binds the local id.
    Binds(LocalId),
    /// Names the local id, as a reference or as a binding.
    Names(LocalId),
    /// Is `this`, or a closure that captures it.
    NeedsThis,
    /// Calls one of the functions with two arguments.
    CallsImul(Set<FuncId>),
    /// Sets one of the state variables.
    SetsState(Map<LocalId, Seq<char>>),
    /// Is a literal that holds the text, or calls a method of a name that does.
    Spells(Seq<char>),
}

pub open spec fn param_ids(params: Seq<ParamView>) -> Seq<LocalId> {
    params.map_values(|p: ParamView| p.id)
}

/// Whether two lists of ids have an id in common.
pub open spec fn share_id(a: Seq<LocalId>, b: Seq<LocalId>) -> bool {
    exists|i: int| 0 <= i < a.len() && b.contains(#[trigger] a[i])
}

/// Whether every id of `a` is in `b`.
pub open spec fn all_among(a: Seq<LocalId>, b: Set<LocalId>) -> bool {
    forall|i: int| 0 <= i < a.len() ==> b.contains(#[trigger] a[i])
}

/// Whether the expression node itself, apart from its children, passes the test.
pub open spec fn expr_test(e: ExprView, t: NodeTest) -> bool {
    match t {
        NodeTest::CallsSuper => e is SuperCall || e is SuperMethodCall,
        NodeTest::Captures(ids) => match e {
            ExprView::Closure { captures, .. } => share_id(captures, ids),
            _ => false,
        },
        NodeTest::Outside(known) => match e {
            ExprView::GlobalGet(_) | ExprView::GlobalSet(_, _) => true,
            ExprView::ExternFuncRef { .. } => true,
            ExprView::NativeMethodCall { .. } => true,
            ExprView::LocalGet(id) => !known.contains(id),
            ExprView::LocalSet(id, _) => !known.contains(id),
            ExprView::Update { id, .. } => !known.contains(id),
            ExprView::LocalCall { id, .. } => !known.contains(id),
            ExprView::Closure { captures, mutable_captures, .. } => !all_among(captures, known)
                || !all_among(mutable_captures, known),
            _ => false,
        },
        NodeTest::Binds(x) => match e {
            ExprView::Closure { params, .. } => param_ids(params).contains(x),
            _ => false,
        },
        NodeTest::Names(x) => match e {
            ExprView::LocalGet(id) => id == x,
            ExprView::LocalSet(id, _) => id == x,
            ExprView::Update { id, .. } => id == x,
            ExprView::LocalCall { id, .. } => id == x,
            ExprView::Closure { params, captures, mutable_captures, .. } => {
                ||| param_ids(params).contains(x)
                ||| captures.contains(x)
                ||| mutable_captures.contains(x)
            },
            _ => false,
        },
        NodeTest::NeedsThis => match e {
            ExprView::This => true,
            ExprView::Closure { captures_this, .. } => captures_this,
            _ => false,
        },
        NodeTest::CallsImul(ids) => is_imul_call(e, ids),
        NodeTest::SetsState(reg) => state_set(e, reg) is Some,
        NodeTest::Spells(t) => match e {
            ExprView::String(s) => occurs(t, s),
            ExprView::Number(n) => occurs(t, n.text),
            ExprView::NativeMethodCall { method, .. } => occurs(t, method),
            _ => false,
        },
    }
}

/// Whether the statement node itself, apart from its children, passes the test.
pub open spec fn stmt_test(s: StmtView, t: NodeTest) -> bool {
    match t {
        NodeTest::Names(x) | NodeTest::Binds(x) => match s {
            StmtView::Let { id, .. } => id == x,
            StmtView::Try { catch: Some(c), .. } => match c.param {
                Some(p) => p.0 == x,
                None => false,
            },
            _ => false,
        },
        _ => false,
    }
}

/// Whether some node of the expression, at any depth, passes the test.
pub open spec fn expr_has(e: ExprView, t: NodeTest) -> bool
    decreases e,
{
    proof {
        assert forall|i: int| 0 <= i < children(e).len() implies decreases_to!(
            e => #[trigger] children(e)[i],
        ) by {
            lemma_children_smaller(e, i);
        }
    }
    ||| expr_test(e, t)
    ||| exists|i: int| 0 <= i < children(e).len() && expr_has(#[trigger] children(e)[i], t)
    ||| match e {
        ExprView::Closure { body, .. } => stmts_have(body, t),
        _ => false,
    }
}

pub open spec fn opt_expr_has(o: Option<ExprView>, t: NodeTest) -> bool {
    match o {
        Some(e) => expr_has(e, t),
        None => false,
    }
}

/// Whether some node of the statements, at any depth, passes the test.
pub open spec fn stmts_have(v: Seq<StmtView>, t: NodeTest) -> bool
    decreases v,
{
    exists|i: int| 0 <= i < v.len() && stmt_has(#[trigger] v[i], t)
}

pub open spec fn case_has(c: CaseView, t: NodeTest) -> bool
    decreases c,
{
    ||| match c.test {
        Some(e) => expr_has(e, t),
        None => false,
    }
    ||| stmts_have(c.body, t)
}

pub open spec fn cases_have(v: Seq<CaseView>, t: NodeTest) -> bool
    decreases v,
{
    exists|i: int| 0 <= i < v.len() && case_has(#[trigger] v[i], t)
}

/// Whether some node of the statement, at any depth, passes the test.
pub open spec fn stmt_has(s: StmtView, t: NodeTest) -> bool
    decreases s,
{
    ||| stmt_test(s, t)
    ||| match s {
        StmtView::Let { init: Some(e), .. } => expr_has(e, t),
        StmtView::Expr(e) => expr_has(e, t),
        StmtView::Return(Some(e)) => expr_has(e, t),
        StmtView::Throw(e) => expr_has(e, t),
        StmtView::If { condition, then_branch, else_branch } => {
            ||| expr_has(condition, t)
            ||| stmts_have(then_branch, t)
            ||| match else_branch {
                Some(b) => stmts_have(b, t),
                None => false,
            }
        },
        StmtView::While { condition, body } => expr_has(condition, t) || stmts_have(body, t),
        StmtView::DoWhile { body, condition } => stmts_have(body, t) || expr_has(condition, t),
        StmtView::For { init, condition, update, body } => {
            ||| match init {
                Some(i) => stmt_has(*i, t),
                None => false,
            }
            ||| match condition {
                Some(c) => expr_has(c, t),
                None => false,
            }
            ||| match update {
                Some(u) => expr_has(u, t),
                None => false,
            }
            ||| stmts_have(body, t)
        },
        StmtView::Labeled { body, .. } => stmt_has(*body, t),
        StmtView::Try { body, catch, finally } => {
            ||| stmts_have(body, t)
            ||| match catch {
                Some(c) => stmts_have(c.body, t),
                None => false,
            }
            ||| match finally {
                Some(f) => stmts_have(f, t),
                None => false,
            }
        },
        StmtView::Switch { discriminant, cases } => expr_has(discriminant, t) || cases_have(
            cases,
            t,
        ),
        _ => false,
    }
}

/// One step of [`expr_has`]: the node itself, a child, or a closure's body.
pub proof fn lemma_expr_has(e: ExprView, t: NodeTest)
    ensures
        expr_has(e, t) ==> {
            ||| expr_test(e, t)
            ||| exists|i: int| 0 <= i < children(e).len() && #[trigger] expr_has(children(e)[i], t)
            ||| (e matches ExprView::Closure { body, .. } && stmts_have(body, t))
        },
{
    if expr_has(e, t) && !expr_test(e, t) {
        if exists|i: int| 0 <= i < children(e).len() && expr_has(#[trigger] children(e)[i], t) {
            let i = choose|i: int|
                0 <= i < children(e).len() && expr_has(#[trigger] children(e)[i], t);
            assert(expr_has(children(e)[i], t));
        }
    }
}

/// One step of [`stmts_have`].
pub proof fn lemma_stmts_have(v: Seq<StmtView>, t: NodeTest)
    ensures
        stmts_have(v, t) ==> exists|i: int| 0 <= i < v.len() && #[trigger] stmt_has(v[i], t),
{
    if stmts_have(v, t) {
        let i = choose|i: int| 0 <= i < v.len() && stmt_has(#[trigger] v[i], t);
        assert(stmt_has(v[i], t));
    }
}

/// One step of [`cases_have`].
pub proof fn lemma_cases_have(v: Seq<CaseView>, t: NodeTest)
    ensures
        cases_have(v, t) ==> exists|i: int| 0 <= i < v.len() && #[trigger] case_has(v[i], t),
{
    if cases_have(v, t) {
        let i = choose|i: int| 0 <= i < v.len() && case_has(#[trigger] v[i], t);
        assert(case_has(v[i], t));
    }
}

/// One step of [`case_has`].
pub proof fn lemma_case_has(c: CaseView, t: NodeTest)
    ensures
        case_has(c, t) == (opt_expr_has(c.test, t) || stmts_have(c.body, t)),
{
}

pub open spec fn opt_stmts_have(o: Option<Seq<StmtView>>, t: NodeTest) -> bool {
    match o {
        Some(b) => stmts_have(b, t),
        None => false,
    }
}

/// One step of [`stmt_has`]: the node itself, or one of its parts.
pub proof fn lemma_stmt_has(s: StmtView, t: NodeTest)
    ensures
        stmt_has(s, t) == (stmt_test(s, t) || match s {
            StmtView::Let { init, .. } => opt_expr_has(init, t),
            StmtView::Expr(e) => expr_has(e, t),
            StmtView::Return(o) => opt_expr_has(o, t),
            StmtView::Throw(e) => expr_has(e, t),
            StmtView::If { condition, then_branch, else_branch } => {
                ||| expr_has(condition, t)
                ||| stmts_have(then_branch, t)
                ||| opt_stmts_have(else_branch, t)
            },
            StmtView::While { condition, body } => expr_has(condition, t) || stmts_have(body, t),
            StmtView::DoWhile { body, condition } => stmts_have(body, t) || expr_has(condition, t),
            StmtView::For { init, condition, update, body } => {
                ||| (init is Some && stmt_has(*init->0, t))
                ||| opt_expr_has(condition, t)
                ||| opt_expr_has(update, t)
                ||| stmts_have(body, t)
            },
            StmtView::Labeled { body, .. } => stmt_has(*body, t),
            StmtView::Try { body, catch, finally } => {
                ||| stmts_have(body, t)
                ||| (catch is Some && stmts_have(catch->0.body, t))
                ||| opt_stmts_have(finally, t)
            },
            StmtView::Switch { discriminant, cases } => {
                ||| expr_has(discriminant, t)
                ||| cases_have(cases, t)
            },
            _ => false,
        }),
{
}

/// Whether neither the node nor a part of it passes the test.
pub open spec fn parts_lack(e: ExprView, t: NodeTest) -> bool {
    &&& !expr_test(e, t)
    &&& forall|i: int| 0 <= i < children(e).len() ==> !expr_has(#[trigger] children(e)[i], t)
    &&& match e {
        ExprView::Closure { body, .. } => !stmts_have(body, t),
        _ => true,
    }
}

/// An expression lacks what its parts lack.
pub proof fn lemma_expr_lacks(e: ExprView, t: NodeTest)
    ensures
        expr_has(e, t) == !parts_lack(e, t),
{
    lemma_expr_has(e, t);
    if parts_lack(e, t) && expr_has(e, t) {
        let i = choose|i: int| 0 <= i < children(e).len() && #[trigger] expr_has(children(e)[i], t);
        assert(!expr_has(children(e)[i], t));
    }
    if !expr_has(e, t) {
        assert forall|i: int| 0 <= i < children(e).len() implies !expr_has(
            #[trigger] children(e)[i],
            t,
        ) by {
            assert(expr_has(children(e)[i], t) ==> expr_has(e, t));
        }
    }
}

/// Statements lack what each of them lacks.
pub proof fn lemma_stmts_lack(v: Seq<StmtView>, t: NodeTest)
    ensures
        stmts_have(v, t) == !(forall|i: int| 0 <= i < v.len() ==> !stmt_has(#[trigger] v[i], t)),
{
    lemma_stmts_have(v, t);
    if !stmts_have(v, t) {
        assert forall|i: int| 0 <= i < v.len() implies !stmt_has(#[trigger] v[i], t) by {
            assert(stmt_has(v[i], t) ==> stmts_have(v, t));
        }
    } else {
        let i = choose|i: int| 0 <= i < v.len() && #[trigger] stmt_has(v[i], t);
        assert(stmt_has(v[i], t));
    }
}

/// Cases lack what each of them lacks.
pub proof fn lemma_cases_lack(v: Seq<CaseView>, t: NodeTest)
    ensures
        cases_have(v, t) == !(forall|i: int|
            0 <= i < v.len() ==> !opt_expr_has((#[trigger] v[i]).test, t) && !stmts_have(
                v[i].body,
                t,
            )),
{
    lemma_cases_have(v, t);
    if !cases_have(v, t) {
        assert forall|i: int| 0 <= i < v.len() implies !opt_expr_has((#[trigger] v[i]).test, t)
            && !stmts_have(v[i].body, t) by {
            assert(case_has(v[i], t) ==> cases_have(v, t));
            lemma_case_has(v[i], t);
        }
    } else {
        let i = choose|i: int| 0 <= i < v.len() && #[trigger] case_has(v[i], t);
        lemma_case_has(v[i], t);
        assert(opt_expr_has(v[i].test, t) || stmts_have(v[i].body, t));
    }
}

// ---------------------------------------------------------------------------
// Yes-or-no questions
// ---------------------------------------------------------------------------

/// The variables of a function's own: its parameters, and whatever its body
/// binds, in closures too.
pub open spec fn own_ids(params: Seq<LocalId>, body: Seq<StmtView>) -> Set<LocalId> {
    Set::new(|x: LocalId| params.contains(x) || stmts_have(body, NodeTest::Binds(x)))
}

/// A node test that can be asked at run time.
#[derive(Clone, Copy)]
pub enum Query<'a> {
    CallsSuper,
    Captures(&'a Vec<LocalId>),
    /// Outside the function with the parameter ids and the body.
    Outside(&'a Vec<LocalId>, &'a Vec<Stmt>),
    Binds(LocalId),
}

impl<'a> Query<'a> {
    pub open spec fn view(self) -> NodeTest {
        match self {
            Query::CallsSuper => NodeTest::CallsSuper,
            Query::Captures(ids) => NodeTest::Captures(ids@),
            Query::Outside(ids, body) => NodeTest::Outside(own_ids(ids@, stmts_view(body@))),
            Query::Binds(x) => NodeTest::Binds(x),
        }
    }

    /// Asking about the outside of a function asks what the function binds.
    pub open spec fn rank(self) -> nat {
        match self {
            Query::Outside(_, _) => 1,
            _ => 0,
        }
    }
}

/// Whether `x` is in the list.
pub fn contains_id(v: &Vec<LocalId>, x: LocalId) -> (r: bool)
    ensures
        r == v@.contains(x),
{
    let mut i: usize = 0;
    while i < v.len()
        invariant
            i <= v@.len(),
            forall|j: int| 0 <= j < i ==> v@[j] != x,
        decreases v@.len() - i,
    {
        if v[i] == x {
            return true;
        }
        i += 1;
    }
    false
}

/// Whether the two lists have an id in common.
fn shares_id(a: &Vec<LocalId>, b: &Vec<LocalId>) -> (r: bool)
    ensures
        r == share_id(a@, b@),
{
    let mut i: usize = 0;
    while i < a.len()
        invariant
            i <= a@.len(),
            forall|j: int| 0 <= j < i ==> !b@.contains(#[trigger] a@[j]),
        decreases a@.len() - i,
    {
        if contains_id(b, a[i]) {
            return true;
        }
        i += 1;
    }
    false
}

/// Whether the function with the parameter ids and the body has the variable.
fn is_own(ids: &Vec<LocalId>, body: &Vec<Stmt>, x: LocalId) -> (r: bool)
    ensures
        r == own_ids(ids@, stmts_view(body@)).contains(x),
    decreases 0nat, body, 2nat,
{
    contains_id(ids, x) || any_in_stmts(body, Query::Binds(x))
}

/// Whether the function with the parameter ids and the body has all variables.
fn are_own(ids: &Vec<LocalId>, body: &Vec<Stmt>, v: &Vec<LocalId>) -> (r: bool)
    ensures
        r == all_among(v@, own_ids(ids@, stmts_view(body@))),
    decreases 0nat, body, 3nat,
{
    let mut i: usize = 0;
    while i < v.len()
        invariant
            i <= v@.len(),
            forall|j: int|
                0 <= j < i ==> own_ids(ids@, stmts_view(body@)).contains(#[trigger] v@[j]),
        decreases v@.len() - i,
    {
        if !is_own(ids, body, v[i]) {
            return false;
        }
        i += 1;
    }
    true
}

/// Whether the variable is a parameter.
fn is_param(v: &Vec<Param>, x: LocalId) -> (r: bool)
    ensures
        r == param_ids(params_view(v@)).contains(x),
{
    let ghost ids = param_ids(params_view(v@));
    let mut i: usize = 0;
    while i < v.len()
        invariant
            i <= v@.len(),
            ids == param_ids(params_view(v@)),
            ids.len() == v@.len(),
            forall|j: int| 0 <= j < i ==> #[trigger] ids[j] != x,
        decreases v@.len() - i,
    {
        assert(ids[i as int] == v@[i as int].id);
        if v[i].id == x {
            return true;
        }
        i += 1;
    }
    false
}

fn node_passes(e: &Expr, q: Query) -> (r: bool)
    ensures
        r == expr_test(e@, q@),
    decreases q.rank(), e, 0nat,
{
    match q {
        Query::CallsSuper => match e {
            Expr::SuperCall(_) => true,
            Expr::SuperMethodCall { .. } => true,
            _ => false,
        },
        Query::Captures(ids) => match e {
            Expr::Closure { captures, .. } => shares_id(captures, ids),
            _ => false,
        },
        Query::Outside(ids, b) => match e {
            Expr::GlobalGet(_) => true,
            Expr::GlobalSet(_, _) => true,
            Expr::ExternFuncRef { .. } => true,
            Expr::NativeMethodCall { .. } => true,
            Expr::LocalGet(id) => !is_own(ids, b, *id),
            Expr::LocalSet(id, _) => !is_own(ids, b, *id),
            Expr::Update { id, .. } => !is_own(ids, b, *id),
            Expr::LocalCall { id, .. } => !is_own(ids, b, *id),
            Expr::Closure { captures, mutable_captures, .. } => !are_own(ids, b, captures)
                || !are_own(ids, b, mutable_captures),
            _ => false,
        },
        Query::Binds(x) => match e {
            Expr::Closure { params, .. } => is_param(params, x),
            _ => false,
        },
    }
}

/// Whether some node of the expression answers the query.
pub fn any_in_expr(e: &Expr, q: Query) -> (r: bool)
    ensures
        r == expr_has(e@, q@),
    decreases q.rank(), e, 1nat,
{
    if node_passes(e, q) {
        return true;
    }
    let kids: Vec<&Expr> = children_of(e);
    let mut i: usize = 0;
    while i < kids.len()
        invariant
            i <= kids@.len(),
            kids@.len() == children(e@).len(),
            forall|j: int| 0 <= j < kids@.len() ==> (#[trigger] kids@[j]).view() == children(e@)[j],
            forall|j: int| 0 <= j < kids@.len() ==> decreases_to!(*e => *(#[trigger] kids@[j])),
            forall|j: int| 0 <= j < i ==> !expr_has(#[trigger] children(e@)[j], q@),
        decreases kids@.len() - i,
    {
        if any_in_expr(kids[i], q) {
            assert(expr_has(children(e@)[i as int], q@));
            return true;
        }
        i += 1;
    }
    match e {
        Expr::Closure { body, .. } => any_in_stmts(body, q),
        _ => false,
    }
}

/// Whether some node of the statements answers the query.
pub fn any_in_stmts(v: &Vec<Stmt>, q: Query) -> (r: bool)
    ensures
        r == stmts_have(stmts_view(v@), q@),
    decreases q.rank(), v, 1nat,
{
    let mut i: usize = 0;
    while i < v.len()
        invariant
            i <= v@.len(),
            forall|j: int| 0 <= j < i ==> !stmt_has(#[trigger] stmts_view(v@)[j], q@),
        decreases v@.len() - i,
    {
        if any_in_stmt(&v[i], q) {
            assert(stmt_has(stmts_view(v@)[i as int], q@));
            return true;
        }
        i += 1;
    }
    false
}

fn any_in_cases(v: &Vec<SwitchCase>, q: Query) -> (r: bool)
    ensures
        r == cases_have(cases_view(v@), q@),
    decreases q.rank(), v, 1nat,
{
    let mut i: usize = 0;
    while i < v.len()
        invariant
            i <= v@.len(),
            forall|j: int| 0 <= j < i ==> !case_has(#[trigger] cases_view(v@)[j], q@),
        decreases v@.len() - i,
    {
        let c: &SwitchCase = &v[i];
        let in_test: bool = match &c.test {
            Some(e) => any_in_expr(e, q),
            None => false,
        };
        if in_test || any_in_stmts(&c.body, q) {
            assert(case_has(cases_view(v@)[i as int], q@));
            return true;
        }
        i += 1;
    }
    false
}

fn stmt_passes(s: &Stmt, q: Query) -> (r: bool)
    ensures
        r == stmt_test(s@, q@),
{
    match q {
        Query::Binds(x) => match s {
            Stmt::Let { id, .. } => *id == x,
            Stmt::Try { catch: Some(c), .. } => catch_binds(c, x),
            _ => false,
        },
        _ => false,
    }
}

fn catch_binds(c: &CatchClause, x: LocalId) -> (r: bool)
    ensures
        r == match c@.param {
            Some(p) => p.0 == x,
            None => false,
        },
{
    match &c.param {
        Some(p) => p.0 == x,
        None => false,
    }
}

fn any_in_stmt(s: &Stmt, q: Query) -> (r: bool)
    ensures
        r == stmt_has(s@, q@),
    decreases q.rank(), s, 1nat,
{
    if stmt_passes(s, q) {
        return true;
    }
    match s {
        Stmt::Let { init: Some(e), .. } => any_in_expr(e, q),
        Stmt::Expr(e) => any_in_expr(e, q),
        Stmt::Return(Some(e)) => any_in_expr(e, q),
        Stmt::Throw(e) => any_in_expr(e, q),
        Stmt::If { condition, then_branch, else_branch } => {
            any_in_expr(condition, q) || any_in_stmts(then_branch, q) || match else_branch {
                Some(b) => any_in_stmts(b, q),
                None => false,
            }
        },
        Stmt::While { condition, body } => any_in_expr(condition, q) || any_in_stmts(body, q),
        Stmt::DoWhile { body, condition } => any_in_stmts(body, q) || any_in_expr(condition, q),
        Stmt::For { init, condition, update, body } => {
            (match init {
                Some(i) => any_in_stmt(i, q),
                None => false,
            }) || (match condition {
                Some(c) => any_in_expr(c, q),
                None => false,
            }) || (match update {
                Some(u) => any_in_expr(u, q),
                None => false,
            }) || any_in_stmts(body, q)
        },
        Stmt::Labeled { body, .. } => any_in_stmt(body, q),
        Stmt::Try { body, catch, finally } => {
            any_in_stmts(body, q) || (match catch {
                Some(c) => any_in_catch(c, q),
                None => false,
            }) || (match finally {
                Some(f) => any_in_stmts(f, q),
                None => false,
            })
        },
        Stmt::Switch { discriminant, cases } => any_in_expr(discriminant, q) || any_in_cases(
            cases,
            q,
        ),
        _ => false,
    }
}

fn any_in_catch(c: &CatchClause, q: Query) -> (r: bool)
    ensures
        r == stmts_have(c@.body, q@),
    decreases q.rank(), c, 1nat,
{
    any_in_stmts(&c.body, q)
}

// ---------------------------------------------------------------------------
// The largest local id
// ---------------------------------------------------------------------------

pub fn larger(a: LocalId, b: LocalId) -> (r: LocalId)
    ensures
        r == if a < b { b } else { a },
{
    if a < b {
        b
    } else {
        a
    }
}

/// Whether `m` bounds every local id that the expression names and, unless it
/// is 0, is one of them.
pub open spec fn max_in_expr(m: LocalId, e: ExprView) -> bool {
    &&& forall|x: LocalId| #[trigger] expr_has(e, NodeTest::Names(x)) ==> x <= m
    &&& m == 0 || expr_has(e, NodeTest::Names(m))
}

/// Whether `m` bounds every local id that the statement names and, unless it is
/// 0, is one of them.
pub open spec fn max_in_stmt(m: LocalId, s: StmtView) -> bool {
    &&& forall|x: LocalId| #[trigger] stmt_has(s, NodeTest::Names(x)) ==> x <= m
    &&& m == 0 || stmt_has(s, NodeTest::Names(m))
}

/// Whether `m` bounds every local id that the statements name and, unless it is
/// 0, is one of them.
pub open spec fn max_in_stmts(m: LocalId, v: Seq<StmtView>) -> bool {
    &&& forall|x: LocalId| #[trigger] stmts_have(v, NodeTest::Names(x)) ==> x <= m
    &&& m == 0 || stmts_have(v, NodeTest::Names(m))
}

/// The largest id of a list, or 0.
pub fn max_of_ids(v: &Vec<LocalId>) -> (r: LocalId)
    ensures
        forall|x: LocalId| #[trigger] v@.contains(x) ==> x <= r,
        r == 0 || v@.contains(r),
{
    let mut m: LocalId = 0;
    let mut i: usize = 0;
    while i < v.len()
        invariant
            i <= v@.len(),
            forall|j: int| 0 <= j < i ==> v@[j] <= m,
            m == 0 || v@.contains(m),
        decreases v@.len() - i,
    {
        m = larger(m, v[i]);
        i += 1;
    }
    m
}

/// The largest id that the parameters bind, or 0.
pub fn max_of_params(v: &Vec<Param>) -> (r: LocalId)
    ensures
        forall|x: LocalId| #[trigger] param_ids(params_view(v@)).contains(x) ==> x <= r,
        r == 0 || param_ids(params_view(v@)).contains(r),
{
    let mut m: LocalId = 0;
    let mut i: usize = 0;
    let ghost ids = param_ids(params_view(v@));
    while i < v.len()
        invariant
            i <= v@.len(),
            ids == param_ids(params_view(v@)),
            ids.len() == v@.len(),
            forall|j: int| 0 <= j < i ==> #[trigger] ids[j] <= m,
            m == 0 || ids.contains(m),
        decreases v@.len() - i,
    {
        assert(ids[i as int] == v@[i as int].id);
        m = larger(m, v[i].id);
        i += 1;
    }
    m
}

/// The largest local id that the expression names, or 0.
pub fn find_max_in_expr(e: &Expr) -> (r: LocalId)
    ensures
        max_in_expr(r, e@),
    decreases e,
{
    let mut m: LocalId = match e {
        Expr::LocalGet(id) => *id,
        Expr::LocalSet(id, _) => *id,
        Expr::Update { id, .. } => *id,
        Expr::LocalCall { id, .. } => *id,
        Expr::Closure { params, body, captures, mutable_captures, .. } => larger(
            larger(max_of_params(params), max_of_ids(captures)),
            larger(max_of_ids(mutable_captures), find_max_local_id(body)),
        ),
        _ => 0,
    };
    let kids: Vec<&Expr> = children_of(e);
    let mut i: usize = 0;
    while i < kids.len()
        invariant
            i <= kids@.len(),
            kids@.len() == children(e@).len(),
            forall|j: int| 0 <= j < kids@.len() ==> (#[trigger] kids@[j]).view() == children(e@)[j],
            forall|j: int| 0 <= j < kids@.len() ==> decreases_to!(*e => *(#[trigger] kids@[j])),
            forall|x: LocalId| #[trigger] expr_test(e@, NodeTest::Names(x)) ==> x <= m,
            e@ matches ExprView::Closure { body, .. } ==> forall|x: LocalId| #[trigger]
                stmts_have(body, NodeTest::Names(x)) ==> x <= m,
            forall|j: int, x: LocalId|
                0 <= j < i && #[trigger] expr_has(children(e@)[j], NodeTest::Names(x)) ==> x <= m,
            m == 0 || expr_has(e@, NodeTest::Names(m)),
        decreases kids@.len() - i,
    {
        let k: LocalId = find_max_in_expr(kids[i]);
        assert(expr_has(children(e@)[i as int], NodeTest::Names(k)) ==> expr_has(
            e@,
            NodeTest::Names(k),
        ));
        m = larger(m, k);
        i += 1;
    }
    proof {
        assert forall|x: LocalId| #[trigger] expr_has(e@, NodeTest::Names(x)) implies x <= m by {
            lemma_expr_has(e@, NodeTest::Names(x));
        }
    }
    m
}

/// The largest local id that the statements name, or 0.
pub fn find_max_local_id(v: &Vec<Stmt>) -> (r: LocalId)
    ensures
        max_in_stmts(r, stmts_view(v@)),
    decreases v,
{
    let mut m: LocalId = 0;
    let mut i: usize = 0;
    let ghost all = stmts_view(v@);
    while i < v.len()
        invariant
            i <= v@.len(),
            all == stmts_view(v@),
            forall|j: int, x: LocalId|
                0 <= j < i && #[trigger] stmt_has(all[j], NodeTest::Names(x)) ==> x <= m,
            m == 0 || stmts_have(all, NodeTest::Names(m)),
        decreases v@.len() - i,
    {
        let k: LocalId = find_max_in_stmt(&v[i]);
        assert(all[i as int] == v@[i as int].view());
        assert(stmt_has(all[i as int], NodeTest::Names(k)) ==> stmts_have(all, NodeTest::Names(k)));
        m = larger(m, k);
        i += 1;
    }
    proof {
        assert forall|x: LocalId| #[trigger] stmts_have(all, NodeTest::Names(x)) implies x
            <= m by {
            lemma_stmts_have(all, NodeTest::Names(x));
        }
    }
    m
}

fn find_max_in_cases(v: &Vec<SwitchCase>) -> (r: LocalId)
    ensures
        forall|x: LocalId| #[trigger] cases_have(cases_view(v@), NodeTest::Names(x)) ==> x <= r,
        r == 0 || cases_have(cases_view(v@), NodeTest::Names(r)),
    decreases v,
{
    let mut m: LocalId = 0;
    let mut i: usize = 0;
    let ghost all = cases_view(v@);
    while i < v.len()
        invariant
            i <= v@.len(),
            all == cases_view(v@),
            forall|j: int, x: LocalId|
                0 <= j < i && #[trigger] case_has(all[j], NodeTest::Names(x)) ==> x <= m,
            m == 0 || cases_have(all, NodeTest::Names(m)),
        decreases v@.len() - i,
    {
        let c: &SwitchCase = &v[i];
        let t: LocalId = match &c.test {
            Some(e) => find_max_in_expr(e),
            None => 0,
        };
        let b: LocalId = find_max_local_id(&c.body);
        let k: LocalId = larger(t, b);
        assert(all[i as int] == c@);
        proof {
            assert forall|x: LocalId| #[trigger] case_has(c@, NodeTest::Names(x)) implies x
                <= k by {
                lemma_case_has(c@, NodeTest::Names(x));
            }
            lemma_case_has(c@, NodeTest::Names(k));
        }
        m = larger(m, k);
        i += 1;
    }
    proof {
        assert forall|x: LocalId| #[trigger] cases_have(all, NodeTest::Names(x)) implies x
            <= m by {
            lemma_cases_have(all, NodeTest::Names(x));
        }
    }
    m
}

fn find_max_in_catch(c: &CatchClause) -> (r: LocalId)
    ensures
        max_in_stmts(r, c@.body),
    decreases c,
{
    find_max_local_id(&c.body)
}

/// The largest local id that the statement names, or 0.
fn find_max_in_stmt(s: &Stmt) -> (r: LocalId)
    ensures
        max_in_stmt(r, s@),
    decreases s,
{
    let r: LocalId = match s {
        Stmt::Let { id, init, .. } => larger(
            *id,
            match init {
                Some(e) => find_max_in_expr(e),
                None => 0,
            },
        ),
        Stmt::Expr(e) => find_max_in_expr(e),
        Stmt::Return(Some(e)) => find_max_in_expr(e),
        Stmt::Throw(e) => find_max_in_expr(e),
        Stmt::If { condition, then_branch, else_branch } => larger(
            larger(find_max_in_expr(condition), find_max_local_id(then_branch)),
            match else_branch {
                Some(b) => find_max_local_id(b),
                None => 0,
            },
        ),
        Stmt::While { condition, body } => larger(
            find_max_in_expr(condition),
            find_max_local_id(body),
        ),
        Stmt::DoWhile { body, condition } => larger(
            find_max_local_id(body),
            find_max_in_expr(condition),
        ),
        Stmt::For { init, condition, update, body } => {
            let a: LocalId = match init {
                Some(i) => find_max_in_stmt(i),
                None => 0,
            };
            let b: LocalId = match condition {
                Some(c) => find_max_in_expr(c),
                None => 0,
            };
            let c: LocalId = match update {
                Some(u) => find_max_in_expr(u),
                None => 0,
            };
            larger(larger(a, b), larger(c, find_max_local_id(body)))
        },
        Stmt::Labeled { body, .. } => find_max_in_stmt(body),
        Stmt::Try { body, catch, finally } => {
            let a: LocalId = find_max_local_id(body);
            let b: LocalId = match catch {
                Some(c) => {
                    let p: LocalId = match &c.param {
                        Some(p) => p.0,
                        None => 0,
                    };
                    larger(p, find_max_in_catch(c))
                },
                None => 0,
            };
            let c: LocalId = match finally {
                Some(f) => find_max_local_id(f),
                None => 0,
            };
            larger(larger(a, b), c)
        },
        Stmt::Switch { discriminant, cases } => larger(
            find_max_in_expr(discriminant),
            find_max_in_cases(cases),
        ),
        _ => 0,
    };
    proof {
        assert forall|x: LocalId| #[trigger] stmt_has(s@, NodeTest::Names(x)) implies x <= r by {
            lemma_stmt_has(s@, NodeTest::Names(x));
        }
        lemma_stmt_has(s@, NodeTest::Names(r));
    }
    r
}

} // verus!

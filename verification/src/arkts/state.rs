//! State variables: `let x = state(initial)`. Each has a name of its own, under
//! which the page keeps its text; `x.set(v)` becomes `setText(name, v)`.

use crate::hir::{Expr, LocalId, Stmt};
use crate::model::{exprs_view, stmts_view, ExprView, StmtView};
use crate::num::{fmt_num, number_text};
use crate::rewrite::{rewrite_expr, rewrite_stmts, rewritten, rewritten_stmts, Pass, Rewrite};
use crate::text::{dec, dec_int, dec_signed, dec_text, law_dec_injective, str_eq};
use std::collections::HashMap;
use vstd::prelude::*;

verus! {

broadcast use vstd::std_specs::hash::group_hash_axioms;

/// A state variable: the name under which its text is kept, and its first text.
pub struct StateBinding {
    pub synth_id: String,
    pub initial_str: String,
}

pub struct StateView {
    pub name: Seq<char>,
    pub initial: Seq<char>,
}

impl StateBinding {
    pub open spec fn view(self) -> StateView {
        StateView { name: self.synth_id@, initial: self.initial_str@ }
    }
}

pub open spec fn states_map(reg: Map<LocalId, StateBinding>) -> Map<LocalId, StateView> {
    Map::new(|id: LocalId| reg.contains_key(id), |id: LocalId| reg[id].view())
}

/// The names of the state variables.
pub open spec fn names_of(states: Map<LocalId, StateView>) -> Map<LocalId, Seq<char>> {
    Map::new(|id: LocalId| states.contains_key(id), |id: LocalId| states[id].name)
}

/// Whether the expression is a call `state(v)`, and of which `v`.
pub open spec fn state_call(e: ExprView) -> Option<ExprView> {
    match e {
        ExprView::NativeMethodCall { module, object, method, args, .. } => if module
            == "perry/ui"@ && method == "state"@ && object is None && args.len() == 1 {
            Some(args[0])
        } else {
            None
        },
        _ => None,
    }
}

/// The state variable that a statement declares, and its first value.
pub open spec fn declared_state(s: StmtView) -> Option<(LocalId, ExprView)> {
    match s {
        StmtView::Let { id, init: Some(e), .. } => match state_call(e) {
            Some(v) => Some((id, v)),
            None => None,
        },
        _ => None,
    }
}

/// The first text of a state variable: that of a literal, and nothing for other
/// values.
pub open spec fn initial_text(e: ExprView) -> Seq<char> {
    match e {
        ExprView::String(s) => s,
        ExprView::Number(n) => number_text(n),
        ExprView::Integer(n) => dec_int(n as int),
        ExprView::Bool(b) => if b {
            "true"@
        } else {
            "false"@
        },
        _ => Seq::empty(),
    }
}

/// The name of the `k`-th state variable.
pub open spec fn state_name(k: nat) -> Seq<char> {
    "__state_"@ + dec(k)
}

/// The state variables that the statements declare, and how many declarations
/// there are. They are named in order.
pub open spec fn state_registry(v: Seq<StmtView>) -> (Map<LocalId, StateView>, nat)
    decreases v.len(),
{
    if v.len() == 0 {
        (Map::empty(), 0)
    } else {
        let (front, k) = state_registry(v.drop_last());
        match declared_state(v.last()) {
            Some((id, e)) => (
                front.insert(id, StateView { name: state_name(k), initial: initial_text(e) }),
                k + 1,
            ),
            None => (front, k),
        }
    }
}

// ---------------------------------------------------------------------------
// Laws
// ---------------------------------------------------------------------------

/// Every registered name is that of one of the declarations so far.
proof fn lemma_registry_names(v: Seq<StmtView>, id: LocalId)
    requires
        state_registry(v).0.contains_key(id),
    ensures
        exists|j: nat|
            j < state_registry(v).1 && state_registry(v).0[id].name == #[trigger] state_name(j),
    decreases v.len(),
{
    let (front, k) = state_registry(v.drop_last());
    match declared_state(v.last()) {
        Some((x, e)) => {
            if x == id {
                assert(state_registry(v).0[id].name == state_name(k));
            } else {
                lemma_registry_names(v.drop_last(), id);
            }
        },
        None => lemma_registry_names(v.drop_last(), id),
    }
}

/// No two state variables share a name.
pub proof fn law_state_names_distinct(v: Seq<StmtView>, a: LocalId, b: LocalId)
    requires
        state_registry(v).0.contains_key(a),
        state_registry(v).0.contains_key(b),
        a != b,
    ensures
        state_registry(v).0[a].name != state_registry(v).0[b].name,
    decreases v.len(),
{
    let (front, k) = state_registry(v.drop_last());
    match declared_state(v.last()) {
        Some((x, e)) => {
            if x == a || x == b {
                let other = if x == a {
                    b
                } else {
                    a
                };
                lemma_registry_names(v.drop_last(), other);
                let j = choose|j: nat| j < k && front[other].name == #[trigger] state_name(j);
                if state_name(j) == state_name(k) {
                    assert(state_name(j).skip("__state_"@.len() as int) =~= dec(j));
                    assert(state_name(k).skip("__state_"@.len() as int) =~= dec(k));
                    law_dec_injective(j, k);
                }
            } else {
                law_state_names_distinct(v.drop_last(), a, b);
            }
        },
        None => law_state_names_distinct(v.drop_last(), a, b),
    }
}

// ---------------------------------------------------------------------------
// Execution
// ---------------------------------------------------------------------------

fn find_state_call(e: &Expr) -> (r: Option<&Expr>)
    ensures
        (match r {
            Some(x) => Some(x@),
            None => None,
        }) == state_call(e@),
{
    match e {
        Expr::NativeMethodCall { module, object, method, args, .. } => {
            let ghost all = exprs_view(args@);
            assert(all.len() == args@.len());
            if str_eq(module, "perry/ui") && str_eq(method, "state") && object.is_none()
                && args.len() == 1 {
                assert(all[0] == args@[0].view());
                Some(&args[0])
            } else {
                None
            }
        },
        _ => None,
    }
}

fn text_of_initial(e: &Expr) -> (r: String)
    ensures
        r@ == initial_text(e@),
{
    match e {
        Expr::String(s) => s.clone(),
        Expr::Number(n) => fmt_num(n),
        Expr::Integer(n) => dec_signed(*n),
        Expr::Bool(b) => if *b {
            "true".to_string()
        } else {
            "false".to_string()
        },
        _ => {
            let r: String = String::new();
            assert(r@ =~= Seq::empty());
            r
        },
    }
}

fn name_of_state(k: u64) -> (r: String)
    ensures
        r@ == state_name(k as nat),
{
    let mut out: String = "__state_".to_string();
    out.append(&dec_text(k));
    out
}

fn find_declared_state(s: &Stmt) -> (r: Option<(LocalId, &Expr)>)
    ensures
        (match r {
            Some(p) => Some((p.0, p.1@)),
            None => None,
        }) == declared_state(s@),
{
    match s {
        Stmt::Let { id, init: Some(e), .. } => match find_state_call(e) {
            Some(v) => Some((*id, v)),
            None => None,
        },
        _ => None,
    }
}

proof fn lemma_states_map_insert(m: Map<LocalId, StateBinding>, id: LocalId, b: StateBinding)
    ensures
        states_map(m.insert(id, b)) == states_map(m).insert(id, b.view()),
{
    assert(states_map(m.insert(id, b)) =~= states_map(m).insert(id, b.view()));
}

/// Discovers the declarations `let x = state(initial)` among the statements.
pub fn collect_state_bindings(v: &Vec<Stmt>) -> (r: HashMap<LocalId, StateBinding>)
    ensures
        states_map(r@) == state_registry(stmts_view(v@)).0,
{
    let ghost all = stmts_view(v@);
    let mut m: HashMap<LocalId, StateBinding> = HashMap::new();
    let mut k: u64 = 0;
    assert(states_map(m@) =~= Map::empty());
    let mut i: usize = 0;
    while i < v.len()
        invariant
            i <= v@.len(),
            all == stmts_view(v@),
            all.len() == v@.len(),
            k <= i,
            state_registry(all.take(i as int)) == (states_map(m@), k as nat),
        decreases v@.len() - i,
    {
        let s: &Stmt = &v[i];
        assert(all.take(i + 1).drop_last() =~= all.take(i as int));
        assert(all.take(i + 1).last() == s@);
        match find_declared_state(s) {
            Some((id, e)) => {
                let b = StateBinding { synth_id: name_of_state(k), initial_str: text_of_initial(e) };
                proof {
                    lemma_states_map_insert(m@, id, b);
                }
                m.insert(id, b);
                k += 1;
            },
            None => {},
        }
        i += 1;
    }
    assert(all.take(i as int) =~= all);
    m
}

/// Turns `x.set(v)` into `setText(name, v)`, in statements.
pub fn rewrite_state_calls_in_stmts(v: &mut Vec<Stmt>, reg: &HashMap<LocalId, StateBinding>)
    ensures
        stmts_view(final(v)@) == rewrite_stmts(
            stmts_view(old(v)@),
            Rewrite::State(names_of(states_map(reg@))),
        ),
{
    *v = rewritten_stmts(v, Pass::State(reg));
}

/// Turns `x.set(v)` into `setText(name, v)`, in an expression.
pub fn rewrite_state_in_expr(e: &mut Expr, reg: &HashMap<LocalId, StateBinding>)
    ensures
        final(e)@ == rewrite_expr(old(e)@, Rewrite::State(names_of(states_map(reg@)))),
{
    *e = rewritten(e, Pass::State(reg));
}

} // verus!

//! State variables keep what they are declared with: each its first value as text, and
//! a name that no other has.

use crate::arkts::state::{declared_state, initial_text, names_of, state_registry, StateView};
use crate::hir::LocalId;
use crate::model::{ExprView, StmtView};
use crate::num::{number_text, whole_value};
use crate::text::dec;
use crate::text_laws::{dec_value, is_decimal, law_dec_int_injective, law_dec_int_reads_back};
use vstd::prelude::*;

verus! {

/// The first text of a state variable is the printed form of its literal: the
/// characters of a string, the name of a boolean, the digits of a number; a value that
/// is no literal has none.
pub proof fn law_initial_text_is_the_printed_literal(e: ExprView)
    ensures
        e matches ExprView::String(s) ==> initial_text(e) == s,
        e == ExprView::Bool(true) ==> initial_text(e) == seq!['t', 'r', 'u', 'e'],
        e == ExprView::Bool(false) ==> initial_text(e) == seq!['f', 'a', 'l', 's', 'e'],
        e matches ExprView::Integer(n) ==> (n >= 0 ==> is_decimal(initial_text(e)) && dec_value(
            initial_text(e),
        ) == n) && (n < 0 ==> initial_text(e)[0] == '-' && is_decimal(initial_text(e).skip(1))
            && dec_value(initial_text(e).skip(1)) == -n),
        e matches ExprView::Number(n) ==> initial_text(e) == number_text(n),
        !(e is String || e is Bool || e is Integer || e is Number) ==> initial_text(e).len() == 0,
{
    reveal_strlit("true");
    reveal_strlit("false");
    assert("true"@ =~= seq!['t', 'r', 'u', 'e']);
    assert("false"@ =~= seq!['f', 'a', 'l', 's', 'e']);
    match e {
        ExprView::Integer(n) => law_dec_int_reads_back(n as int),
        _ => {},
    }
}

/// Different literals of one type never have the same first text. (Numbers that are
/// not whole are printed as they are written.)
pub proof fn law_initial_text_tells_literals_apart(a: ExprView, b: ExprView)
    requires
        initial_text(a) == initial_text(b),
    ensures
        a is String && b is String ==> a == b,
        a is Bool && b is Bool ==> a == b,
        a is Integer && b is Integer ==> a == b,
        a matches ExprView::Number(x) ==> (b matches ExprView::Number(y) ==> {
            &&& whole_value(x.bits) is Some && whole_value(y.bits) is Some ==> whole_value(x.bits)
                == whole_value(y.bits)
            &&& whole_value(x.bits) is None && whole_value(y.bits) is None ==> x.text == y.text
        }),
{
    law_initial_text_is_the_printed_literal(a);
    law_initial_text_is_the_printed_literal(b);
    if a is Bool && b is Bool {
        assert(seq!['t', 'r', 'u', 'e'].len() == 4);
        assert(seq!['f', 'a', 'l', 's', 'e'].len() == 5);
    }
    match (a, b) {
        (ExprView::Integer(x), ExprView::Integer(y)) => law_dec_int_injective(x as int, y as int),
        (ExprView::Number(x), ExprView::Number(y)) => {
            if whole_value(x.bits) is Some && whole_value(y.bits) is Some {
                law_dec_int_injective(whole_value(x.bits)->0, whole_value(y.bits)->0);
            }
        },
        _ => {},
    }
}

/// Whether the statement is `let id = state(first)`.
pub open spec fn declares_state(s: StmtView, id: LocalId, first: ExprView) -> bool {
    s matches StmtView::Let { id: x, init: Some(e), .. } && x == id && (
    e matches ExprView::NativeMethodCall { module, object, method, args, .. } && module
        == "perry/ui"@ && method == "state"@ && object is None && args == seq![first])
}

/// A variable is a state variable exactly where a statement declares it as one. The last
/// declaration gives its first text, and its name counts the declarations before that
/// one.
pub proof fn law_declared_states_are_registered(v: Seq<StmtView>, id: LocalId, i: int, first: ExprView)
    requires
        0 <= i < v.len(),
        declares_state(v[i], id, first),
        forall|j: int, e: ExprView| i < j < v.len() ==> !#[trigger] declares_state(v[j], id, e),
    ensures
        state_registry(v).0.contains_key(id),
        state_registry(v).0[id].initial == initial_text(first),
        state_registry(v).0[id].name == "__state_"@ + dec(
            state_registry(v.take(i)).1,
        ),
    decreases v.len(),
{
    let front = v.drop_last();
    let last = v.len() - 1;
    assert(v.last() == v[last]);
    if i == last {
        assert(v.take(i) =~= front);
        assert(declared_state(v[i]) == Some((id, first)));
    } else {
        assert(front[i] == v[i]);
        assert(front.take(i) =~= v.take(i));
        assert forall|j: int, e: ExprView| i < j < front.len() implies !#[trigger] declares_state(
            front[j],
            id,
            e,
        ) by {
            assert(front[j] == v[j]);
        }
        law_declared_states_are_registered(front, id, i, first);
        match declared_state(v[last]) {
            Some((x, e)) => {
                lemma_declared(v[last]);
                assert(declares_state(v[last], x, e));
                assert(x != id);
            },
            None => {},
        }
    }
}

proof fn lemma_declared(s: StmtView)
    ensures
        declared_state(s) matches Some((x, e)) ==> declares_state(s, x, e),
        declared_state(s) is None ==> forall|x: LocalId, e: ExprView|
            !#[trigger] declares_state(s, x, e),
{
    match s {
        StmtView::Let { init: Some(ExprView::NativeMethodCall { args, .. }), .. } => {
            if args.len() == 1 {
                assert(args =~= seq![args[0]]);
            }
        },
        _ => {},
    }
}

/// Every state variable was declared as one, and every declaration counts once.
pub proof fn law_registered_states_are_declared(v: Seq<StmtView>, id: LocalId, s: StmtView)
    ensures
        state_registry(v).0.contains_key(id) ==> exists|i: int, e: ExprView|
            0 <= i < v.len() && #[trigger] declares_state(v[i], id, e),
        (exists|x: LocalId, e: ExprView| #[trigger] declares_state(s, x, e)) ==> state_registry(
            v.push(s),
        ).1 == state_registry(v).1 + 1,
        (forall|x: LocalId, e: ExprView| !#[trigger] declares_state(s, x, e)) ==> state_registry(
            v.push(s),
        ) == state_registry(v),
    decreases v.len(),
{
    assert(v.push(s).drop_last() =~= v);
    assert(v.push(s).last() == s);
    lemma_declared(s);
    if v.len() > 0 {
        let front = v.drop_last();
        let last = v.len() - 1;
        law_registered_states_are_declared(front, id, s);
        lemma_declared(v[last]);
        if state_registry(v).0.contains_key(id) {
            if state_registry(front).0.contains_key(id) {
                let (i, e) = choose|i: int, e: ExprView|
                    0 <= i < front.len() && #[trigger] declares_state(front[i], id, e);
                assert(declares_state(v[i], id, e));
            } else {
                let (x, e) = declared_state(v[last])->0;
                assert(declares_state(v[last], id, e));
            }
        }
    }
}

/// The names by which calls are rewritten are those of the state variables.
pub proof fn law_names_of(states: Map<LocalId, StateView>, id: LocalId)
    ensures
        names_of(states).contains_key(id) <==> states.contains_key(id),
        states.contains_key(id) ==> names_of(states)[id] == states[id].name,
{
}

} // verus!

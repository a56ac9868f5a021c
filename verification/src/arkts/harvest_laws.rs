//! What is taken out of a module: the body of its first `App` call, and the constants
//! that its widgets refer to.

use crate::arkts::harvest::{
    app_body, app_call, app_index, const_bindings, harvest, lemma_app_found, with_states,
    HarvestView,
};
use crate::arkts::leaf::EmitView;
use crate::arkts::page::page;
use crate::arkts::state::state_registry;
use crate::arkts::value::prop_in;
use crate::arkts::widget::{widget, EnvView, PlaceView};
use crate::hir::LocalId;
use crate::model::{ClassView, ExprView, ModuleView, StmtView};
use vstd::prelude::*;

verus! {

/// Whether the statement binds the variable to the value, once and for all.
pub open spec fn binds_const(s: StmtView, id: LocalId, e: ExprView) -> bool {
    s matches StmtView::Let { id: x, mutable, init: Some(v), .. } && x == id && !mutable && v == e
}

/// A variable stands for the value of the last constant of its id at the top; variables
/// that may change, or that have no value, stand for nothing.
pub proof fn law_const_bindings(v: Seq<StmtView>, id: LocalId, i: int, e: ExprView)
    ensures
        0 <= i < v.len() && binds_const(v[i], id, e) && (forall|j: int, x: ExprView|
            i < j < v.len() ==> !#[trigger] binds_const(v[j], id, x)) ==> const_bindings(
            v,
        ).contains_key(id) && const_bindings(v)[id] == e,
        (forall|j: int, x: ExprView| 0 <= j < v.len() ==> !#[trigger] binds_const(v[j], id, x))
            ==> !const_bindings(v).contains_key(id),
    decreases v.len(),
{
    if v.len() > 0 {
        let front = v.drop_last();
        let last = v.len() - 1;
        assert(v.last() == v[last]);
        assert forall|j: int| 0 <= j < front.len() implies #[trigger] front[j] == v[j] by {}
        law_const_bindings(front, id, i, e);
        match v[last] {
            StmtView::Let { id: x, mutable, init: Some(w), .. } => {
                if !mutable {
                    assert(binds_const(v[last], x, w));
                }
            },
            _ => {},
        }
        if (forall|j: int, x: ExprView| 0 <= j < v.len() ==> !#[trigger] binds_const(v[j], id, x)) {
            assert forall|j: int, x: ExprView| 0 <= j < front.len() implies !#[trigger] binds_const(
                front[j],
                id,
                x,
            ) by {
                assert(!binds_const(v[j], id, x));
            }
        }
        if 0 <= i < last && binds_const(v[i], id, e) && (forall|j: int, x: ExprView|
            i < j < v.len() ==> !#[trigger] binds_const(v[j], id, x)) {
            assert forall|j: int, x: ExprView| i < j < front.len() implies !#[trigger] binds_const(
                front[j],
                id,
                x,
            ) by {
                assert(!binds_const(v[j], id, x));
            }
            assert(binds_const(front[i], id, e));
        }
    }
}

/// A call is the `App` call where it calls `App` of the user interface, on no object,
/// with one object that has a body; its widgets are that body.
pub proof fn law_app_call(e: ExprView, classes: Seq<ClassView>)
    ensures
        app_call(e, classes) is Some ==> (e matches ExprView::NativeMethodCall {
            module,
            object,
            method,
            args,
            ..
        } && module == "perry/ui"@ && method == "App"@ && object is None && args.len() == 1
            && app_call(e, classes) == prop_in(args[0], classes, "body"@)),
        (e matches ExprView::NativeMethodCall { module, object, method, args, .. } && module
            == "perry/ui"@ && method == "App"@ && object is None && args.len() == 1 && prop_in(
            args[0],
            classes,
            "body"@,
        ) is Some) ==> app_call(e, classes) is Some,
        app_body(StmtView::Expr(e), classes) == app_call(e, classes),
{
}

/// A module has a page exactly where one of its statements, with its state calls
/// rewritten, is the `App` call; the first one counts. (There is an error instead where
/// the widgets have no finite tree.)
pub proof fn law_page_where_there_is_an_app(m: ModuleView, i: int)
    ensures
        ({
            let init = with_states(m.init);
            &&& harvest(m) is NoApp <==> forall|j: int|
                0 <= j < init.len() ==> app_body(#[trigger] init[j], m.classes) is None
            &&& 0 <= i < init.len() && app_body(init[i], m.classes) is Some && (forall|j: int|
                0 <= j < i ==> app_body(#[trigger] init[j], m.classes) is None) ==> app_index(
                init,
                m.classes,
            ) == i
        }),
{
    let init = with_states(m.init);
    lemma_app_found(init, m.classes);
    let k = app_index(init, m.classes) as int;
    if k < init.len() {
        assert(app_body(init[k], m.classes) is Some);
    }
    if 0 <= i < init.len() && app_body(init[i], m.classes) is Some && (forall|j: int|
        0 <= j < i ==> app_body(#[trigger] init[j], m.classes) is None) {
        if i < k {
            assert(app_body(init[i], m.classes) is None);
        }
        if k < i {
            assert(app_body(init[k], m.classes) is None);
        }
    }
}

/// The page shows the body of the first `App` call, as a widget at the top: with the
/// constants of the init statements, the classes of the module and its state variables,
/// and with nothing registered before it. It has a field for all that the widget
/// registers, and the callbacks are those of the widget.
pub proof fn law_page_shows_the_app(m: ModuleView, body: ExprView)
    requires
        app_index(with_states(m.init), m.classes) < with_states(m.init).len(),
        app_body(
            with_states(m.init)[app_index(with_states(m.init), m.classes) as int],
            m.classes,
        ) == Some(body),
    ensures
        ({
            let init = with_states(m.init);
            let env = EnvView {
                bindings: const_bindings(init),
                classes: m.classes,
                states: state_registry(m.init).0,
            };
            let top = PlaceView { depth: 0, locals: Seq::empty() };
            let none = EmitView {
                callbacks: Seq::empty(),
                slots: Seq::empty(),
                lazies: Seq::empty(),
            };
            match widget(body, env, top, none, init.len()) {
                Some(run) => harvest(m) matches HarvestView::Page { source, callbacks, .. }
                    && source == page(run.text, run.emit.slots, run.emit.lazies) && callbacks
                    == run.emit.callbacks,
                None => harvest(m) is Endless,
            }
        }),
{
}

} // verus!

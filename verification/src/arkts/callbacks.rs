//! What the callbacks of a page hold.
//!
//! Callbacks are taken out of the init statements as they are. What the statements
//! hold nowhere, no callback holds.

use crate::arkts::harvest::{
    app_body, app_call, app_index, const_bindings, harvest, lemma_app_found, noop, with_states,
    HarvestView,
};
use crate::arkts::leaf::{menu_action, menu_items, menu_list, registered, EmitView};
use crate::arkts::state::{names_of, state_registry};
use crate::arkts::value::{at, lemma_prop_smaller, numeric, object_props, prop_in};
use crate::arkts::widget::{
    bare, deeper, first_expr, for_each, grid, in_loop, kids, kids_at, lazy_list, lazy_vstack,
    lemma_loop_body_smaller, loop_body, loop_param, shown, stack, state_text, tab, tab_blocks,
    tab_list, tabs, widget, widgets, EnvView, PlaceView,
};
use crate::hir::LocalId;
use crate::inline::scan::{
    expr_has, lemma_expr_lacks, lemma_stmt_has, lemma_stmts_lack, stmt_has, stmts_have, NodeTest,
};
use crate::model::{ClassView, ExprView, ModuleView, NumView, StmtView};
use crate::rebuild::with_children;
use crate::rewrite::{rewrite_children, rewrite_expr, state_set, Rewrite};
use crate::rewrite_module::{law_nothing_is_left_in_module, module_lacks};
use crate::walk::children;
use vstd::prelude::*;

verus! {

/// Whether none of the expressions holds such a node.
pub open spec fn all_lack(v: Seq<ExprView>, t: NodeTest) -> bool {
    forall|i: int| 0 <= i < v.len() ==> !expr_has(#[trigger] v[i], t)
}

/// Whether no value that a variable is bound to holds such a node.
pub open spec fn bindings_lack(m: Map<LocalId, ExprView>, t: NodeTest) -> bool {
    forall|id: LocalId| m.contains_key(id) ==> !expr_has(#[trigger] m[id], t)
}

// ---------------------------------------------------------------------------
// Parts
// ---------------------------------------------------------------------------

proof fn lemma_parts_lack(e: ExprView, t: NodeTest)
    requires
        !expr_has(e, t),
    ensures
        all_lack(children(e), t),
{
    lemma_expr_lacks(e, t);
}

/// The arguments of a call lack what the call lacks.
proof fn lemma_args_lack(e: ExprView, t: NodeTest)
    requires
        e is NativeMethodCall,
        !expr_has(e, t),
    ensures
        all_lack(e->NativeMethodCall_args, t),
{
    lemma_parts_lack(e, t);
    let args = e->NativeMethodCall_args;
    let shift: int = children(e).len() - args.len();
    assert forall|i: int| 0 <= i < args.len() implies !expr_has(#[trigger] args[i], t) by {
        assert(children(e)[i + shift] == args[i]);
    }
}

pub proof fn lemma_prop_lacks(e: ExprView, classes: Seq<ClassView>, name: Seq<char>, t: NodeTest)
    requires
        !expr_has(e, t),
    ensures
        prop_in(e, classes, name) matches Some(v) ==> !expr_has(v, t),
{
    lemma_parts_lack(e, t);
    lemma_prop_smaller(e, classes, name);
}

proof fn lemma_first_expr_lacks(body: Seq<StmtView>, t: NodeTest)
    requires
        !stmts_have(body, t),
    ensures
        first_expr(body) matches Some(e) ==> !expr_has(e, t),
    decreases body.len(),
{
    lemma_stmts_lack(body, t);
    if body.len() > 0 {
        lemma_stmt_has(body[0], t);
        let rest = body.skip(1);
        lemma_stmts_lack(rest, t);
        assert forall|i: int| 0 <= i < rest.len() implies !stmt_has(#[trigger] rest[i], t) by {
            assert(rest[i] == body[i + 1]);
        }
        lemma_first_expr_lacks(rest, t);
    }
}

pub proof fn lemma_loop_body_lacks(callback: ExprView, t: NodeTest)
    requires
        !expr_has(callback, t),
    ensures
        loop_body(callback) matches Some(e) ==> !expr_has(e, t),
{
    lemma_expr_lacks(callback, t);
    match callback {
        ExprView::Closure { body, .. } => lemma_first_expr_lacks(body, t),
        _ => {},
    }
}

proof fn lemma_registered_lack(e: Option<ExprView>, callbacks: Seq<ExprView>, t: NodeTest)
    requires
        all_lack(callbacks, t),
        e matches Some(x) ==> !expr_has(x, t),
    ensures
        all_lack(registered(e, callbacks), t),
{
    let out = registered(e, callbacks);
    assert forall|i: int| 0 <= i < out.len() implies !expr_has(#[trigger] out[i], t) by {
        if i < callbacks.len() {
            assert(out[i] == callbacks[i]);
        }
    }
}

proof fn lemma_menu_lack(items: Seq<ExprView>, callbacks: Seq<ExprView>, t: NodeTest)
    requires
        all_lack(items, t),
        all_lack(callbacks, t),
    ensures
        all_lack(menu_items(items, callbacks).1, t),
    decreases items.len(),
{
    if items.len() > 0 {
        let front = items.drop_last();
        assert forall|i: int| 0 <= i < front.len() implies !expr_has(#[trigger] front[i], t) by {
            assert(front[i] == items[i]);
        }
        lemma_menu_lack(front, callbacks, t);
        let e = items.last();
        assert(e == items[items.len() - 1]);
        match e {
            ExprView::Object(_) => {
                lemma_prop_lacks(e, Seq::empty(), "action"@, t);
                assert(menu_action(e) == prop_in(e, Seq::empty(), "action"@));
            },
            _ => {},
        }
        lemma_registered_lack(menu_action(e), menu_items(front, callbacks).1, t);
    }
}

// ---------------------------------------------------------------------------
// The walk
// ---------------------------------------------------------------------------

proof fn lemma_widget_lacks(
    e: ExprView,
    env: EnvView,
    p: PlaceView,
    emit: EmitView,
    left: nat,
    t: NodeTest,
)
    requires
        !expr_has(e, t),
        bindings_lack(env.bindings, t),
        all_lack(emit.callbacks, t),
    ensures
        widget(e, env, p, emit, left) matches Some(run) ==> all_lack(
            run.emit.callbacks,
            t,
        ),
    decreases left, e, 2nat,
{
    if state_text(e, env.states) is None {
        match e {
            ExprView::LocalGet(id) => {
                if env.bindings.contains_key(id) {
                    if left > 0 {
                        lemma_shown_lacks(env.bindings[id], env, p, emit, (left - 1) as nat, t);
                    }
                } else {
                    lemma_shown_lacks(e, env, p, emit, left, t);
                }
            },
            _ => lemma_shown_lacks(e, env, p, emit, left, t),
        }
    }
}

proof fn lemma_shown_lacks(
    e: ExprView,
    env: EnvView,
    p: PlaceView,
    emit: EmitView,
    left: nat,
    t: NodeTest,
)
    requires
        !expr_has(e, t),
        bindings_lack(env.bindings, t),
        all_lack(emit.callbacks, t),
    ensures
        shown(e, env, p, emit, left) matches Some(run) ==> all_lack(
            run.emit.callbacks,
            t,
        ),
    decreases left, e, 1nat,
{
    match e {
        ExprView::NativeMethodCall { method, args, .. } => {
            lemma_args_lack(e, t);
            lemma_bare_lacks(method, args, env, p, emit, left, t);
        },
        ExprView::ArrayMap { .. } => lemma_for_each_lacks(e, env, p, emit, left, t),
        _ => {},
    }
}

proof fn lemma_bare_lacks(
    name: Seq<char>,
    args: Seq<ExprView>,
    env: EnvView,
    p: PlaceView,
    emit: EmitView,
    left: nat,
    t: NodeTest,
)
    requires
        all_lack(args, t),
        bindings_lack(env.bindings, t),
        all_lack(emit.callbacks, t),
    ensures
        bare(name, args, env, p, emit, left) matches Some(run) ==> all_lack(
            run.emit.callbacks,
            t,
        ),
    decreases left, args, 3nat,
{
    if name == "Text"@ {
    } else if name == "VStack"@ {
        lemma_stack_lacks("Column"@, args, env, p, emit, left, t);
    } else if name == "HStack"@ {
        lemma_stack_lacks("Row"@, args, env, p, emit, left, t);
    } else if name == "Button"@ || name == "TextField"@ || name == "Toggle"@ {
        lemma_registered_lack(at(args, 1), emit.callbacks, t);
    } else if name == "Slider"@ {
        lemma_registered_lack(at(args, 2), emit.callbacks, t);
    } else if name == "Spacer"@ || name == "Divider"@ || name == "Image"@ || name == "ImageFile"@ {
    } else if name == "ScrollView"@ {
        lemma_kids_at_lacks(args, 0, env, deeper(p, 2), emit, left, t);
    } else if name == "LazyVStack"@ {
        lemma_lazy_vstack_lacks(args, env, p, emit, left, t);
    } else if name == "Picker"@ {
        lemma_registered_lack(at(args, 1), emit.callbacks, t);
    } else if name == "ProgressView"@ {
    } else if name == "Section"@ {
        lemma_kids_at_lacks(args, 1, env, deeper(p, 1), emit, left, t);
    } else if name == "Tabs"@ {
        lemma_tabs_lacks(args, env, p, emit, left, t);
    } else if name == "Modal"@ || name == "Dialog"@ {
    } else if name == "Menu"@ || name == "ContextMenu"@ {
        if menu_list(args).len() > 0 {
            lemma_parts_lack(args[0], t);
        }
        lemma_menu_lack(menu_list(args), emit.callbacks, t);
    } else if name == "Grid"@ {
        lemma_grid_lacks(args, env, p, emit, left, t);
    }
}

proof fn lemma_kids_at_lacks(
    args: Seq<ExprView>,
    i: int,
    env: EnvView,
    p: PlaceView,
    emit: EmitView,
    left: nat,
    t: NodeTest,
)
    requires
        all_lack(args, t),
        bindings_lack(env.bindings, t),
        all_lack(emit.callbacks, t),
    ensures
        kids_at(args, i, env, p, emit, left) matches Some(run) ==> all_lack(
            run.emit.callbacks,
            t,
        ),
    decreases left, args, 0nat,
{
    if 0 <= i < args.len() {
        lemma_kids_lacks(args[i], env, p, emit, left, t);
    }
}

proof fn lemma_kids_lacks(
    e: ExprView,
    env: EnvView,
    p: PlaceView,
    emit: EmitView,
    left: nat,
    t: NodeTest,
)
    requires
        !expr_has(e, t),
        bindings_lack(env.bindings, t),
        all_lack(emit.callbacks, t),
    ensures
        kids(e, env, p, emit, left) matches Some(run) ==> all_lack(
            run.emit.callbacks,
            t,
        ),
    decreases left, e, 3nat,
{
    match e {
        ExprView::Array(items) => {
            lemma_parts_lack(e, t);
            lemma_widgets_lacks(items, items.len(), env, p, emit, left, t);
        },
        ExprView::ArrayMap { .. } => lemma_widget_lacks(e, env, p, emit, left, t),
        _ => {},
    }
}

proof fn lemma_widgets_lacks(
    items: Seq<ExprView>,
    k: nat,
    env: EnvView,
    p: PlaceView,
    emit: EmitView,
    left: nat,
    t: NodeTest,
)
    requires
        all_lack(items, t),
        bindings_lack(env.bindings, t),
        all_lack(emit.callbacks, t),
    ensures
        widgets(items, k, env, p, emit, left) matches Some(run) ==> all_lack(
            run.emit.callbacks,
            t,
        ),
    decreases left, items, k,
{
    if 0 < k <= items.len() {
        lemma_widgets_lacks(items, (k - 1) as nat, env, p, emit, left, t);
        match widgets(items, (k - 1) as nat, env, p, emit, left) {
            Some(front) => lemma_widget_lacks(items[k - 1], env, p, front.emit, left, t),
            None => {},
        }
    }
}

proof fn lemma_stack_lacks(
    kind: Seq<char>,
    args: Seq<ExprView>,
    env: EnvView,
    p: PlaceView,
    emit: EmitView,
    left: nat,
    t: NodeTest,
)
    requires
        all_lack(args, t),
        bindings_lack(env.bindings, t),
        all_lack(emit.callbacks, t),
    ensures
        stack(kind, args, env, p, emit, left) matches Some(run) ==> all_lack(
            run.emit.callbacks,
            t,
        ),
    decreases left, args, 0nat,
{
    let i: int = if args.len() > 0 && numeric(args[0]) is Some {
        1
    } else {
        0
    };
    if i < args.len() {
        lemma_kids_lacks(args[i], env, deeper(p, 1), emit, left, t);
    }
}

proof fn lemma_for_each_lacks(
    e: ExprView,
    env: EnvView,
    p: PlaceView,
    emit: EmitView,
    left: nat,
    t: NodeTest,
)
    requires
        !expr_has(e, t),
        bindings_lack(env.bindings, t),
        all_lack(emit.callbacks, t),
    ensures
        for_each(e, env, p, emit, left) matches Some(run) ==> all_lack(
            run.emit.callbacks,
            t,
        ),
    decreases left, e, 0nat,
{
    lemma_parts_lack(e, t);
    match e {
        ExprView::ArrayMap { callback, .. } => {
            assert(children(e)[1] == *callback);
            if loop_param(*callback) is Some && loop_body(*callback) is Some {
                lemma_loop_body_smaller(*callback);
                lemma_loop_body_lacks(*callback, t);
                lemma_widget_lacks(
                    loop_body(*callback)->0,
                    env,
                    in_loop(p, loop_param(*callback)->0, 1),
                    emit,
                    left,
                    t,
                );
            }
        },
        _ => {},
    }
}

proof fn lemma_lazy_vstack_lacks(
    args: Seq<ExprView>,
    env: EnvView,
    p: PlaceView,
    emit: EmitView,
    left: nat,
    t: NodeTest,
)
    requires
        all_lack(args, t),
        bindings_lack(env.bindings, t),
        all_lack(emit.callbacks, t),
    ensures
        lazy_vstack(args, env, p, emit, left) matches Some(run) ==> all_lack(
            run.emit.callbacks,
            t,
        ),
    decreases left, args, 0nat,
{
    if args.len() > 0 {
        if args[0] is ArrayMap {
            lemma_lazy_list_lacks(args[0], env, p, emit, left, t);
        } else {
            lemma_kids_lacks(args[0], env, deeper(p, 1), emit, left, t);
        }
    }
}

proof fn lemma_lazy_list_lacks(
    e: ExprView,
    env: EnvView,
    p: PlaceView,
    emit: EmitView,
    left: nat,
    t: NodeTest,
)
    requires
        !expr_has(e, t),
        bindings_lack(env.bindings, t),
        all_lack(emit.callbacks, t),
    ensures
        lazy_list(e, env, p, emit, left) matches Some(run) ==> all_lack(
            run.emit.callbacks,
            t,
        ),
    decreases left, e, 0nat,
{
    lemma_parts_lack(e, t);
    match e {
        ExprView::ArrayMap { callback, .. } => {
            assert(children(e)[1] == *callback);
            if loop_param(*callback) is Some && loop_body(*callback) is Some {
                lemma_loop_body_smaller(*callback);
                lemma_loop_body_lacks(*callback, t);
                lemma_widget_lacks(
                    loop_body(*callback)->0,
                    env,
                    in_loop(p, loop_param(*callback)->0, 3),
                    emit,
                    left,
                    t,
                );
            }
        },
        _ => {},
    }
}

proof fn lemma_tabs_lacks(
    args: Seq<ExprView>,
    env: EnvView,
    p: PlaceView,
    emit: EmitView,
    left: nat,
    t: NodeTest,
)
    requires
        all_lack(args, t),
        bindings_lack(env.bindings, t),
        all_lack(emit.callbacks, t),
    ensures
        tabs(args, env, p, emit, left) matches Some(run) ==> all_lack(
            run.emit.callbacks,
            t,
        ),
    decreases left, args, 0nat,
{
    if args.len() > 0 && args[0] is Array {
        lemma_tab_list_lacks(args[0], env, p, emit, left, t);
    }
}

proof fn lemma_tab_list_lacks(
    e: ExprView,
    env: EnvView,
    p: PlaceView,
    emit: EmitView,
    left: nat,
    t: NodeTest,
)
    requires
        !expr_has(e, t),
        bindings_lack(env.bindings, t),
        all_lack(emit.callbacks, t),
    ensures
        tab_list(e, env, p, emit, left) matches Some(run) ==> all_lack(
            run.emit.callbacks,
            t,
        ),
    decreases left, e, 3nat,
{
    match e {
        ExprView::Array(items) => {
            lemma_parts_lack(e, t);
            lemma_tab_blocks_lacks(items, items.len(), env, p, emit, left, t);
        },
        _ => {},
    }
}

proof fn lemma_tab_blocks_lacks(
    items: Seq<ExprView>,
    k: nat,
    env: EnvView,
    p: PlaceView,
    emit: EmitView,
    left: nat,
    t: NodeTest,
)
    requires
        all_lack(items, t),
        bindings_lack(env.bindings, t),
        all_lack(emit.callbacks, t),
    ensures
        tab_blocks(items, k, env, p, emit, left) matches Some(run) ==> all_lack(
            run.emit.callbacks,
            t,
        ),
    decreases left, items, k,
{
    if 0 < k <= items.len() {
        lemma_tab_blocks_lacks(items, (k - 1) as nat, env, p, emit, left, t);
        match tab_blocks(items, (k - 1) as nat, env, p, emit, left) {
            Some(front) => lemma_tab_lacks(items[k - 1], env, p, front.emit, left, t),
            None => {},
        }
    }
}

proof fn lemma_tab_lacks(
    e: ExprView,
    env: EnvView,
    p: PlaceView,
    emit: EmitView,
    left: nat,
    t: NodeTest,
)
    requires
        !expr_has(e, t),
        bindings_lack(env.bindings, t),
        all_lack(emit.callbacks, t),
    ensures
        tab(e, env, p, emit, left) matches Some(run) ==> all_lack(
            run.emit.callbacks,
            t,
        ),
    decreases left, e, 3nat,
{
    if object_props(e, env.classes) is Some {
        match prop_in(e, env.classes, "body"@) {
            Some(body) => {
                lemma_prop_smaller(e, env.classes, "body"@);
                lemma_prop_lacks(e, env.classes, "body"@, t);
                lemma_widget_lacks(body, env, deeper(p, 2), emit, left, t);
            },
            None => {},
        }
    }
}

proof fn lemma_grid_lacks(
    args: Seq<ExprView>,
    env: EnvView,
    p: PlaceView,
    emit: EmitView,
    left: nat,
    t: NodeTest,
)
    requires
        all_lack(args, t),
        bindings_lack(env.bindings, t),
        all_lack(emit.callbacks, t),
    ensures
        grid(args, env, p, emit, left) matches Some(run) ==> all_lack(
            run.emit.callbacks,
            t,
        ),
    decreases left, args, 0nat,
{
    if args.len() > 1 && args[1] is Array {
        lemma_kids_lacks(args[1], env, deeper(p, 2), emit, left, t);
    }
}

// ---------------------------------------------------------------------------
// The page
// ---------------------------------------------------------------------------

pub proof fn lemma_bindings_lack(v: Seq<StmtView>, t: NodeTest)
    requires
        !stmts_have(v, t),
    ensures
        bindings_lack(const_bindings(v), t),
    decreases v.len(),
{
    if v.len() > 0 {
        let front = v.drop_last();
        lemma_stmts_lack(v, t);
        lemma_stmts_lack(front, t);
        assert forall|i: int| 0 <= i < front.len() implies !stmt_has(#[trigger] front[i], t) by {
            assert(front[i] == v[i]);
        }
        lemma_bindings_lack(front, t);
        assert(v.last() == v[v.len() - 1]);
        lemma_stmt_has(v.last(), t);
        let before = const_bindings(front);
        let all = const_bindings(v);
        assert forall|id: LocalId| all.contains_key(id) implies !expr_has(
            #[trigger] all[id],
            t,
        ) by {
            if before.contains_key(id) {
                assert(!expr_has(before[id], t));
            }
        }
    }
}

/// No call that sets a state variable is left where a page is made: neither anywhere in
/// the module nor in the callbacks that were taken out of it.
pub proof fn law_no_state_call_is_left(m: ModuleView)
    ensures
        ({
            let t = NodeTest::SetsState(names_of(state_registry(m.init).0));
            harvest(m) matches HarvestView::Page { callbacks, module, .. } ==> all_lack(
                callbacks,
                t,
            ) && module_lacks(module, t)
        }),
{
    let names = names_of(state_registry(m.init).0);
    let t = NodeTest::SetsState(names);
    let init = with_states(m.init);
    law_nothing_is_left_in_module(m, Rewrite::State(names));
    lemma_stmts_lack(init, t);
    let i = app_index(init, m.classes);
    if i < init.len() {
        lemma_app_found(init, m.classes);
        let call = init[i as int];
        assert(!stmt_has(init[i as int], t));
        lemma_stmt_has(call, t);
        match call {
            StmtView::Expr(e) => {
                assert(app_body(call, m.classes) == app_call(e, m.classes));
                lemma_args_lack(e, t);
                lemma_prop_lacks(e->NativeMethodCall_args[0], m.classes, "body"@, t);
            },
            _ => {},
        }
        lemma_bindings_lack(init, t);
        lemma_widget_lacks(
            app_body(call, m.classes)->0,
            EnvView {
                bindings: const_bindings(init),
                classes: m.classes,
                states: state_registry(m.init).0,
            },
            PlaceView { depth: 0, locals: Seq::empty() },
            EmitView { callbacks: Seq::empty(), slots: Seq::empty(), lazies: Seq::empty() },
            init.len(),
            t,
        );
        let out = init.update(i as int, noop());
        lemma_stmts_lack(out, t);
        lemma_stmt_has(noop(), t);
        lemma_expr_lacks(ExprView::Number(NumView { bits: 0, text: "0"@ }), t);
        assert forall|j: int| 0 <= j < out.len() implies !stmt_has(#[trigger] out[j], t) by {
            if j != i {
                assert(out[j] == init[j]);
            }
        }
    }
}

/// Any other node keeps its shape when the calls that set state variables are
/// rewritten: a `set` of something else, or one with another number of arguments, has
/// its parts rewritten and is otherwise what it was.
pub proof fn law_other_calls_keep_their_shape(e: ExprView, names: Map<LocalId, Seq<char>>)
    requires
        state_set(e, names) is None,
        !(e is Closure),
    ensures
        rewrite_expr(e, Rewrite::State(names)) == with_children(
            e,
            rewrite_children(e, Rewrite::State(names)),
        ),
{
}

} // verus!
